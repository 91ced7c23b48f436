//! What one stored parameter does to the parameters of a mode.
//!
//! The proofs here say, key by key, what reading the token `key=value`
//! changes. They are the ground for the laws of the mode record.

use vstd::prelude::*;
use crate::split::lemma_find_char_is;
use crate::number::{parse_i32, parse_bool};
use crate::decimal::is_float_text;
use crate::params::{Parameters, apply_token, token_key, token_value};

verus! {

/// Whether `key` is one of the seven keys of a stored parameter.
pub open spec fn is_parameter_key(key: Seq<char>) -> bool {
    ||| key == "temp"@
    ||| key == "top_k"@
    ||| key == "top_p"@
    ||| key == "ctx_size"@
    ||| key == "threads"@
    ||| key == "gpu_layers"@
    ||| key == "interactive_first"@
}

/// The seven keys are distinct texts of ASCII small letters and `_`: none
/// is empty, none holds `=`, `|`, `/` or a line feed, and each followed by
/// `=` is the text that stands before a stored value.
#[verifier::rlimit(40)]
pub proof fn lemma_parameter_keys()
    ensures
        "temp="@ == "temp"@.push('='),
        "temp"@.len() == 4,
        "top_k="@ == "top_k"@.push('='),
        "top_k"@.len() == 5,
        "top_p="@ == "top_p"@.push('='),
        "top_p"@.len() == 5,
        "ctx_size="@ == "ctx_size"@.push('='),
        "ctx_size"@.len() == 8,
        "threads="@ == "threads"@.push('='),
        "threads"@.len() == 7,
        "gpu_layers="@ == "gpu_layers"@.push('='),
        "gpu_layers"@.len() == 10,
        "interactive_first="@ == "interactive_first"@.push('='),
        "interactive_first"@.len() == 17,
        "temp"@ != "top_k"@,
        "temp"@ != "top_p"@,
        "temp"@ != "ctx_size"@,
        "temp"@ != "threads"@,
        "temp"@ != "gpu_layers"@,
        "temp"@ != "interactive_first"@,
        "top_k"@ != "top_p"@,
        "top_k"@ != "ctx_size"@,
        "top_k"@ != "threads"@,
        "top_k"@ != "gpu_layers"@,
        "top_k"@ != "interactive_first"@,
        "top_p"@ != "ctx_size"@,
        "top_p"@ != "threads"@,
        "top_p"@ != "gpu_layers"@,
        "top_p"@ != "interactive_first"@,
        "ctx_size"@ != "threads"@,
        "ctx_size"@ != "gpu_layers"@,
        "ctx_size"@ != "interactive_first"@,
        "threads"@ != "gpu_layers"@,
        "threads"@ != "interactive_first"@,
        "gpu_layers"@ != "interactive_first"@,
        forall|key: Seq<char>| #[trigger]
            is_parameter_key(key) ==> key.len() > 0 && !key.contains('=') && !key.contains('|')
                && !key.contains('\n') && key[0] != '/',
{
    reveal_strlit("temp");
    reveal_strlit("temp=");
    assert("temp="@ =~= "temp"@.push('='));
    reveal_strlit("top_k");
    reveal_strlit("top_k=");
    assert("top_k="@ =~= "top_k"@.push('='));
    reveal_strlit("top_p");
    reveal_strlit("top_p=");
    assert("top_p="@ =~= "top_p"@.push('='));
    reveal_strlit("ctx_size");
    reveal_strlit("ctx_size=");
    assert("ctx_size="@ =~= "ctx_size"@.push('='));
    reveal_strlit("threads");
    reveal_strlit("threads=");
    assert("threads="@ =~= "threads"@.push('='));
    reveal_strlit("gpu_layers");
    reveal_strlit("gpu_layers=");
    assert("gpu_layers="@ =~= "gpu_layers"@.push('='));
    reveal_strlit("interactive_first");
    reveal_strlit("interactive_first=");
    assert("interactive_first="@ =~= "interactive_first"@.push('='));
    assert("top_k"@[4] != "top_p"@[4]);
    assert forall|key: Seq<char>| #[trigger] is_parameter_key(key) implies key.len() > 0
        && !key.contains('=') && !key.contains('|') && !key.contains('\n') && key[0] != '/' by {
        if key.contains('\n') {
            let k = choose|k: int| 0 <= k < key.len() && key[k] == '\n';
            assert(key[k] == '\n');
        }
        if key.contains('=') {
            let k = choose|k: int| 0 <= k < key.len() && key[k] == '=';
            assert(key[k] == '=');
        }
        if key.contains('|') {
            let k = choose|k: int| 0 <= k < key.len() && key[k] == '|';
            assert(key[k] == '|');
        }
    }
}

/// A token made of a key without `=`, then `=`, then a value has that key
/// and that value.
pub proof fn lemma_token(key: Seq<char>, value: Seq<char>)
    requires
        !key.contains('='),
    ensures
        (key.push('=') + value).contains('='),
        token_key(key.push('=') + value) == key,
        token_value(key.push('=') + value) == value,
{
    let token = key.push('=') + value;
    assert(token[key.len() as int] == '=');
    assert forall|j: int| 0 <= j < key.len() implies #[trigger] token[j] != '=' by {
        assert(token[j] == key[j]);
    }
    lemma_find_char_is(token, '=', key.len() as int);
    assert(token.take(key.len() as int) =~= key);
    assert(token.skip(key.len() as int + 1) =~= value);
}

/// A token whose key is none of the seven leaves the parameters as they
/// were.
pub proof fn lemma_apply_other(p: Parameters, token: Seq<char>)
    requires
        !token.contains('=') || !is_parameter_key(token_key(token)),
    ensures
        apply_token(p, token) == p,
{
}

/// The token `temp=value` sets the temperature where the value is a
/// floating-point literal, and changes nothing else.
pub proof fn lemma_apply_temp(p: Parameters, value: Seq<char>)
    ensures
        apply_token(p, "temp="@ + value) == (if is_float_text(value) {
            Parameters { temperature: value, ..p }
        } else {
            p
        }),
{
    lemma_parameter_keys();
    assert(is_parameter_key("temp"@));
    lemma_token("temp"@, value);
}

/// The token `top_k=value` sets the top-k parameter where the value is an
/// `i32`, and changes nothing else.
pub proof fn lemma_apply_top_k(p: Parameters, value: Seq<char>)
    ensures
        apply_token(p, "top_k="@ + value) == (match parse_i32(value) {
            Some(v) => Parameters { top_k: v, ..p },
            None => p,
        }),
{
    lemma_parameter_keys();
    assert(is_parameter_key("top_k"@));
    lemma_token("top_k"@, value);
}

/// The token `top_p=value` sets the top-p parameter where the value is a
/// floating-point literal, and changes nothing else.
pub proof fn lemma_apply_top_p(p: Parameters, value: Seq<char>)
    ensures
        apply_token(p, "top_p="@ + value) == (if is_float_text(value) {
            Parameters { top_p: value, ..p }
        } else {
            p
        }),
{
    lemma_parameter_keys();
    assert(is_parameter_key("top_p"@));
    lemma_token("top_p"@, value);
}

/// The token `ctx_size=value` sets the context size where the value is an
/// `i32`, and changes nothing else.
pub proof fn lemma_apply_ctx_size(p: Parameters, value: Seq<char>)
    ensures
        apply_token(p, "ctx_size="@ + value) == (match parse_i32(value) {
            Some(v) => Parameters { context_size: v, ..p },
            None => p,
        }),
{
    lemma_parameter_keys();
    assert(is_parameter_key("ctx_size"@));
    lemma_token("ctx_size"@, value);
}

/// The token `threads=value` sets the thread count to the value as written,
/// where the value is an `i32`, and changes nothing else.
pub proof fn lemma_apply_threads(p: Parameters, value: Seq<char>)
    ensures
        apply_token(p, "threads="@ + value) == (match parse_i32(value) {
            Some(v) => Parameters { thread_count: v, ..p },
            None => p,
        }),
{
    lemma_parameter_keys();
    assert(is_parameter_key("threads"@));
    lemma_token("threads"@, value);
}

/// The token `gpu_layers=value` sets the number of GPU layers where the value
/// is an `i32`, and changes nothing else.
pub proof fn lemma_apply_gpu_layers(p: Parameters, value: Seq<char>)
    ensures
        apply_token(p, "gpu_layers="@ + value) == (match parse_i32(value) {
            Some(v) => Parameters { gpu_layers: v, ..p },
            None => p,
        }),
{
    lemma_parameter_keys();
    assert(is_parameter_key("gpu_layers"@));
    lemma_token("gpu_layers"@, value);
}

/// The token `interactive_first=value` sets the flag where the value is `true`
/// or `false`, and changes nothing else.
pub proof fn lemma_apply_interactive_first(p: Parameters, value: Seq<char>)
    ensures
        apply_token(p, "interactive_first="@ + value) == (match parse_bool(value) {
            Some(v) => Parameters { interactive_first: v, ..p },
            None => p,
        }),
{
    lemma_parameter_keys();
    assert(is_parameter_key("interactive_first"@));
    lemma_token("interactive_first"@, value);
}

/// A stored parameter whose value cannot be read leaves every parameter as
/// it was: the field keeps its default or what an earlier token gave it,
/// and the rest of the record is not touched.
pub proof fn lemma_unreadable_value_changes_nothing(
    p: Parameters,
    key: Seq<char>,
    value: Seq<char>,
)
    requires
        is_parameter_key(key),
        key == "temp"@ || key == "top_p"@ ==> !is_float_text(value),
        key == "top_k"@ || key == "ctx_size"@ || key == "threads"@ || key == "gpu_layers"@
            ==> parse_i32(value) is None,
        key == "interactive_first"@ ==> parse_bool(value) is None,
    ensures
        apply_token(p, key.push('=') + value) == p,
{
    lemma_parameter_keys();
    assert(is_parameter_key(key));
    lemma_token(key, value);
}

} // verus!
