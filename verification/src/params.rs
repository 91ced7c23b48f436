//! The sampling and runtime parameters of a chat mode, and how they are read
//! from the `key=value` tokens of a stored mode.

use vstd::prelude::*;
use crate::text::{views, chars_of, string_of, slice_of, is_str};
use crate::trim::{trim, trim_chars};
use crate::split::{find_char, find_in, lemma_find_char};
use crate::number::{parse_i32, parse_bool, parse_i32_chars, parse_bool_chars};
use crate::decimal::{is_float_text, is_float_chars};

verus! {

/// The parameters handed to the text-generation program.
///
/// The two fractional parameters are kept as the decimal text that was read
/// or entered, so that writing them out gives back what was read.
#[derive(Debug, Clone, PartialEq, Eq)]
pub struct LlamaCppParameters {
    /// Sampling temperature, as a floating-point literal.
    pub temperature_value: String,
    /// Number of candidates kept by top-k sampling.
    pub top_k_sampling: i32,
    /// Probability mass kept by top-p sampling, as a floating-point literal.
    pub top_p_sampling: String,
    /// Size of the context window.
    pub context_size: i32,
    /// Number of threads.
    pub thread_count: i32,
    /// Number of layers placed on the GPU; 0 keeps all on the CPU.
    pub gpu_layers: i32,
    /// Whether the program waits for input before it generates.
    pub interactive_first: bool,
}

/// The parameters as plain values.
pub ghost struct Parameters {
    pub temperature: Seq<char>,
    pub top_k: i32,
    pub top_p: Seq<char>,
    pub context_size: i32,
    pub thread_count: i32,
    pub gpu_layers: i32,
    pub interactive_first: bool,
}

impl View for LlamaCppParameters {
    type V = Parameters;

    open spec fn view(&self) -> Parameters {
        Parameters {
            temperature: self.temperature_value@,
            top_k: self.top_k_sampling,
            top_p: self.top_p_sampling@,
            context_size: self.context_size,
            thread_count: self.thread_count,
            gpu_layers: self.gpu_layers,
            interactive_first: self.interactive_first,
        }
    }
}

/// The default number of threads for a machine on which `detected`
/// processors were found: one less than that, at least 1 and at most the
/// largest `i32`; 3 where the number could not be found.
pub open spec fn default_thread_count(detected: Option<usize>) -> i32 {
    match detected {
        Some(n) => if n <= 1 {
            1
        } else if n - 1 > i32::MAX {
            i32::MAX
        } else {
            (n - 1) as i32
        },
        None => 3,
    }
}

/// A thread count held within the bounds of a machine: at least 1, and at
/// most one more than the default number of threads, which is the number of
/// processors. Reading a stored mode does not apply these bounds; they are
/// for a caller that wants a count the machine can serve.
pub open spec fn clamp_threads(threads: i32, default_threads: i32) -> i32 {
    if threads < 1 {
        1
    } else if threads > default_threads + 1 {
        (default_threads + 1) as i32
    } else {
        threads
    }
}

/// The parameters of a mode that names none.
pub open spec fn default_parameters(default_threads: i32) -> Parameters {
    Parameters {
        temperature: "0.8"@,
        top_k: 40,
        top_p: "0.9"@,
        context_size: 2000,
        thread_count: default_threads,
        gpu_layers: 0,
        interactive_first: true,
    }
}

/// The key of a token that holds `=`: what stands before the first `=`.
pub open spec fn token_key(token: Seq<char>) -> Seq<char> {
    token.take(find_char(token, '='))
}

/// The value of a token that holds `=`: what stands after the first `=`.
pub open spec fn token_value(token: Seq<char>) -> Seq<char> {
    token.skip(find_char(token, '=') + 1)
}

/// The parameters after one token was read. A token `key=value` with a known
/// key and a value of that key's type sets the parameter to that value. A
/// token without `=`, with an unknown key, or with a value that cannot be
/// read leaves the parameters as they were.
pub open spec fn apply_token(p: Parameters, token: Seq<char>) -> Parameters {
    let key = token_key(token);
    let value = token_value(token);
    if !token.contains('=') {
        p
    } else if key == "temp"@ {
        if is_float_text(value) {
            Parameters { temperature: value, ..p }
        } else {
            p
        }
    } else if key == "top_k"@ {
        match parse_i32(value) {
            Some(v) => Parameters { top_k: v, ..p },
            None => p,
        }
    } else if key == "top_p"@ {
        if is_float_text(value) {
            Parameters { top_p: value, ..p }
        } else {
            p
        }
    } else if key == "ctx_size"@ {
        match parse_i32(value) {
            Some(v) => Parameters { context_size: v, ..p },
            None => p,
        }
    } else if key == "threads"@ {
        match parse_i32(value) {
            Some(v) => Parameters { thread_count: v, ..p },
            None => p,
        }
    } else if key == "gpu_layers"@ {
        match parse_i32(value) {
            Some(v) => Parameters { gpu_layers: v, ..p },
            None => p,
        }
    } else if key == "interactive_first"@ {
        match parse_bool(value) {
            Some(v) => Parameters { interactive_first: v, ..p },
            None => p,
        }
    } else {
        p
    }
}

/// The parameters that the segments of a stored mode give: the defaults,
/// changed by each segment in turn, so that a later token wins.
pub open spec fn parse_parameters(parts: Seq<Seq<char>>, default_threads: i32) -> Parameters
    decreases parts.len(),
{
    if parts.len() == 0 {
        default_parameters(default_threads)
    } else {
        apply_token(parse_parameters(parts.drop_last(), default_threads), parts.last())
    }
}

/// A parameter that the user can enter as a number.
#[derive(Debug, Clone, Copy, PartialEq, Eq)]
pub enum ParameterField {
    /// The sampling temperature.
    Temperature,
    /// The top-k parameter.
    TopK,
    /// The top-p parameter.
    TopP,
    /// The size of the context window.
    ContextSize,
    /// The number of threads.
    ThreadCount,
    /// The number of GPU layers.
    GpuLayers,
}

/// The parameters after the user entered a value for one of them. An entry
/// that is empty but for white space keeps the parameter. Any other entry
/// is trimmed and must be a value of the parameter's type; where it is
/// none, there is no result.
pub open spec fn entered(p: Parameters, field: ParameterField, entry: Seq<char>) -> Option<
    Parameters,
> {
    let t = trim(entry);
    if t.len() == 0 {
        Some(p)
    } else {
        match field {
            ParameterField::Temperature => if is_float_text(t) {
                Some(Parameters { temperature: t, ..p })
            } else {
                None
            },
            ParameterField::TopK => match parse_i32(t) {
                Some(v) => Some(Parameters { top_k: v, ..p }),
                None => None,
            },
            ParameterField::TopP => if is_float_text(t) {
                Some(Parameters { top_p: t, ..p })
            } else {
                None
            },
            ParameterField::ContextSize => match parse_i32(t) {
                Some(v) => Some(Parameters { context_size: v, ..p }),
                None => None,
            },
            ParameterField::ThreadCount => match parse_i32(t) {
                Some(v) => Some(Parameters { thread_count: v, ..p }),
                None => None,
            },
            ParameterField::GpuLayers => match parse_i32(t) {
                Some(v) => Some(Parameters { gpu_layers: v, ..p }),
                None => None,
            },
        }
    }
}

/// The default number of threads, given the number of processors where it
/// is known.
pub fn get_system_cpu_count(detected: Option<usize>) -> (threads: i32)
    ensures
        threads == default_thread_count(detected),
        threads >= 1,
{
    match detected {
        Some(n) => {
            if n <= 1 {
                1
            } else if n - 1 > 0x7fff_ffff {
                0x7fff_ffff
            } else {
                (n - 1) as i32
            }
        },
        None => 3,
    }
}

/// Holds a thread count within bounds: at least 1, at most one more than
/// `default_threads`.
pub fn validate_thread_count(threads: i32, default_threads: i32) -> (r: i32)
    ensures
        r == clamp_threads(threads, default_threads),
{
    let max_threads: i64 = default_threads as i64 + 1;
    if threads < 1 {
        1
    } else if threads as i64 > max_threads {
        max_threads as i32
    } else {
        threads
    }
}

impl LlamaCppParameters {
    /// The default parameters, with `default_threads` threads.
    pub fn new(default_threads: i32) -> (p: LlamaCppParameters)
        ensures
            p@ == default_parameters(default_threads),
    {
        LlamaCppParameters {
            temperature_value: string_of(&chars_of("0.8")),
            top_k_sampling: 40,
            top_p_sampling: string_of(&chars_of("0.9")),
            context_size: 2000,
            thread_count: default_threads,
            gpu_layers: 0,
            interactive_first: true,
        }
    }

    /// A copy of the parameters.
    pub fn duplicate(&self) -> (p: LlamaCppParameters)
        ensures
            p@ == self@,
    {
        LlamaCppParameters {
            temperature_value: self.temperature_value.clone(),
            top_k_sampling: self.top_k_sampling,
            top_p_sampling: self.top_p_sampling.clone(),
            context_size: self.context_size,
            thread_count: self.thread_count,
            gpu_layers: self.gpu_layers,
            interactive_first: self.interactive_first,
        }
    }

    /// Takes the user's entry for one parameter. An empty entry keeps the
    /// parameter. An entry that is no value of the parameter's type is
    /// refused, and the parameters stay as they were.
    pub fn set_from_entry(&mut self, field: ParameterField, entry: &str) -> (accepted: bool)
        ensures
            match entered(old(self)@, field, entry@) {
                Some(p) => accepted && final(self)@ == p,
                None => !accepted && final(self)@ == old(self)@,
            },
    {
        let t = trim_chars(&chars_of(entry));
        if t.len() == 0 {
            return true;
        }
        match field {
            ParameterField::Temperature => {
                if is_float_chars(&t) {
                    self.temperature_value = string_of(&t);
                    true
                } else {
                    false
                }
            },
            ParameterField::TopK => match parse_i32_chars(&t) {
                Some(v) => {
                    self.top_k_sampling = v;
                    true
                },
                None => false,
            },
            ParameterField::TopP => {
                if is_float_chars(&t) {
                    self.top_p_sampling = string_of(&t);
                    true
                } else {
                    false
                }
            },
            ParameterField::ContextSize => match parse_i32_chars(&t) {
                Some(v) => {
                    self.context_size = v;
                    true
                },
                None => false,
            },
            ParameterField::ThreadCount => match parse_i32_chars(&t) {
                Some(v) => {
                    self.thread_count = v;
                    true
                },
                None => false,
            },
            ParameterField::GpuLayers => match parse_i32_chars(&t) {
                Some(v) => {
                    self.gpu_layers = v;
                    true
                },
                None => false,
            },
        }
    }

    /// Reads one token into the parameters.
    pub fn apply(&mut self, token: &Vec<char>)
        ensures
            final(self)@ == apply_token(old(self)@, token@),
    {
        let at: usize = find_in(token, '=');
        proof {
            lemma_find_char(token@, '=');
        }
        if at == token.len() {
            return ;
        }
        let key = slice_of(token, 0, at);
        let value = slice_of(token, at + 1, token.len());
        assert(key@ =~= token_key(token@));
        assert(value@ =~= token_value(token@));
        if is_str(&key, "temp") {
            if is_float_chars(&value) {
                self.temperature_value = string_of(&value);
            }
        } else if is_str(&key, "top_k") {
            match parse_i32_chars(&value) {
                Some(v) => {
                    self.top_k_sampling = v;
                },
                None => {},
            }
        } else if is_str(&key, "top_p") {
            if is_float_chars(&value) {
                self.top_p_sampling = string_of(&value);
            }
        } else if is_str(&key, "ctx_size") {
            match parse_i32_chars(&value) {
                Some(v) => {
                    self.context_size = v;
                },
                None => {},
            }
        } else if is_str(&key, "threads") {
            match parse_i32_chars(&value) {
                Some(v) => {
                    self.thread_count = v;
                },
                None => {},
            }
        } else if is_str(&key, "gpu_layers") {
            match parse_i32_chars(&value) {
                Some(v) => {
                    self.gpu_layers = v;
                },
                None => {},
            }
        } else if is_str(&key, "interactive_first") {
            match parse_bool_chars(&value) {
                Some(v) => {
                    self.interactive_first = v;
                },
                None => {},
            }
        }
    }
}

/// The parameters that the segments of a stored mode give.
pub fn parameters_of(parts: &Vec<Vec<char>>, default_threads: i32) -> (p: LlamaCppParameters)
    ensures
        p@ == parse_parameters(views(parts@), default_threads),
{
    let mut p = LlamaCppParameters::new(default_threads);
    let mut i: usize = 0;
    assert(views(parts@).take(0) =~= Seq::<Seq<char>>::empty());
    while i < parts.len()
        invariant
            i <= parts@.len(),
            p@ == parse_parameters(views(parts@).take(i as int), default_threads),
        decreases parts@.len() - i,
    {
        proof {
            assert(views(parts@).take(i + 1).drop_last() =~= views(parts@).take(i as int));
            assert(views(parts@).take(i + 1).last() == parts@[i as int]@);
        }
        p.apply(&parts[i]);
        i += 1;
    }
    assert(views(parts@).take(parts@.len() as int) =~= views(parts@));
    p
}

/// Reads the parameters from the segments of a stored mode. Segments without
/// `=`, with an unknown key, or with a value that cannot be read are passed
/// over, and the parameter keeps its default or what an earlier segment
/// gave it.
pub fn parse_parameters_from_parts(parts: &Vec<String>, default_threads: i32) -> (p:
    LlamaCppParameters)
    ensures
        p@ == parse_parameters(crate::text::string_views(parts@), default_threads),
{
    let mut all: Vec<Vec<char>> = Vec::new();
    let mut i: usize = 0;
    while i < parts.len()
        invariant
            i <= parts@.len(),
            all@.len() == i,
            forall|j: int| 0 <= j < i ==> (#[trigger] all@[j])@ == parts@[j]@,
        decreases parts@.len() - i,
    {
        all.push(chars_of(parts[i].as_str()));
        i += 1;
    }
    assert(views(all@) =~= crate::text::string_views(parts@));
    parameters_of(&all, default_threads)
}

} // verus!
