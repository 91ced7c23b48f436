//! The laws of the mode record: what was decoded can be encoded and decoded
//! again without change.

use vstd::prelude::*;
use crate::text::{lemma_contains_add, lemma_contains_push, lemma_contains_subrange};
use crate::trim::strip_start;
use crate::split::{
    split,
    all_free_of,
    find_char,
    lemma_find_char,
    lemma_split_join,
    lemma_split_shape,
};
use crate::number::{
    is_digit,
    parse_bool,
    render_int,
    render_bool,
    lemma_parse_render_int,
    lemma_render_int_chars,
};
use crate::decimal::{is_float_text, is_number, leading_digits, is_exponent_or_empty};
use crate::path::{
    is_absolute,
    join_path,
    strip_prefix_all,
    prompt_file_part,
    blank_prompt_path,
    lemma_strip_prefix_all,
};
use crate::params::{
    Parameters,
    apply_token,
    parse_parameters,
    default_parameters,
};
use crate::tokens::{
    is_parameter_key,
    lemma_parameter_keys,
    lemma_apply_other,
    lemma_apply_temp,
    lemma_apply_top_k,
    lemma_apply_top_p,
    lemma_apply_ctx_size,
    lemma_apply_threads,
    lemma_apply_gpu_layers,
    lemma_apply_interactive_first,
};
use crate::mode::{
    Mode,
    plain_segments,
    segments_name,
    segments_description,
    decode_segments,
    decode,
    encode_segments,
    encode,
};

verus! {

/// Whether the parameters can be stored and read back: the two fractional
/// parameters are floating-point literals without `|`.
pub open spec fn storable_parameters(p: Parameters) -> bool {
    &&& is_float_text(p.temperature)
    &&& !p.temperature.contains('|')
    &&& is_float_text(p.top_p)
    &&& !p.top_p.contains('|')
}

/// Whether a mode is in the form that decoding gives: both paths absolute,
/// no `|` in any text, no `=` in the prompt path, the name or the
/// description, and parameters that can be stored.
pub open spec fn is_canonical(m: Mode) -> bool {
    &&& is_absolute(m.model_path)
    &&& !m.model_path.contains('|')
    &&& is_absolute(m.prompt_path)
    &&& !m.prompt_path.contains('|')
    &&& !m.prompt_path.contains('=')
    &&& !m.name.contains('|')
    &&& !m.name.contains('=')
    &&& !m.description.contains('|')
    &&& !m.description.contains('=')
    &&& storable_parameters(m.parameters)
}

/// Whether a directory can stand before the relative paths of stored
/// modes: it is absolute and holds no `|`.
pub open spec fn is_base_dir(dir: Seq<char>) -> bool {
    is_absolute(dir) && !dir.contains('|')
}

/// A stored text gives a mode exactly when it holds `|`: a text of a single
/// segment is no mode, whatever the directories and the default are.
pub proof fn lemma_single_segment_is_no_mode(
    text: Seq<char>,
    home: Seq<char>,
    prompts_dir: Seq<char>,
    default_threads: i32,
)
    ensures
        decode(text, home, prompts_dir, default_threads) is None <==> !text.contains('|'),
{
    lemma_split_shape(text, '|');
}

/// The parameters after one more segment.
pub proof fn lemma_parameters_step(parts: Seq<Seq<char>>, k: int, default_threads: i32)
    requires
        0 <= k < parts.len(),
    ensures
        parse_parameters(parts.take(k + 1), default_threads) == apply_token(
            parse_parameters(parts.take(k), default_threads),
            parts[k],
        ),
{
    assert(parts.take(k + 1).drop_last() =~= parts.take(k));
    assert(parts.take(k + 1).last() == parts[k]);
}

/// The segments without `=` after one more segment.
pub proof fn lemma_plain_step(parts: Seq<Seq<char>>, k: int)
    requires
        0 <= k < parts.len(),
    ensures
        plain_segments(parts.take(k + 1)) == if parts[k].contains('=') {
            plain_segments(parts.take(k))
        } else {
            plain_segments(parts.take(k)).push(parts[k])
        },
{
    assert(parts.take(k + 1).drop_last() =~= parts.take(k));
    assert(parts.take(k + 1).last() == parts[k]);
}

/// The texts `true` and `false` hold neither `|` nor a line feed, and read
/// back as the boolean that was written.
pub proof fn lemma_render_bool(b: bool)
    ensures
        !render_bool(b).contains('|'),
        !render_bool(b).contains('\n'),
        parse_bool(render_bool(b)) == Some(b),
{
    let s = render_bool(b);
    if s.contains('|') {
        let k = choose|k: int| 0 <= k < s.len() && s[k] == '|';
        assert(s[k] == '|');
    }
    if s.contains('\n') {
        let k = choose|k: int| 0 <= k < s.len() && s[k] == '\n';
        assert(s[k] == '\n');
    }
    if !b {
        assert(s[0] != seq!['t', 'r', 'u', 'e'][0]);
    }
}

/// A written integer holds no character but digits and `-`.
pub proof fn lemma_render_int_free(v: int, c: char)
    requires
        !is_digit(c),
        c != '-',
    ensures
        !render_int(v).contains(c),
{
    lemma_render_int_chars(v);
    let s = render_int(v);
    if s.contains(c) {
        let k = choose|k: int| 0 <= k < s.len() && s[k] == c;
        assert(is_digit(s[k]) || s[k] == '-');
    }
}

/// A stored parameter holds a character only where its key or its value
/// does, or the character is `=`.
pub proof fn lemma_stored_parameter_free(key: Seq<char>, value: Seq<char>, c: char)
    requires
        !key.contains(c),
        !value.contains(c),
        c != '=',
    ensures
        !(key.push('=') + value).contains(c),
{
    lemma_contains_push(key, '=', c);
    lemma_contains_add(key.push('='), value, c);
}

/// Whether the texts of a mode are free of `c`.
pub open spec fn mode_free_of(m: Mode, c: char) -> bool {
    &&& !m.model_path.contains(c)
    &&& !m.prompt_path.contains(c)
    &&& !m.name.contains(c)
    &&& !m.description.contains(c)
    &&& !m.parameters.temperature.contains(c)
    &&& !m.parameters.top_p.contains(c)
}

/// The segments of a mode's stored text hold `|` or a line feed only where
/// the texts of the mode do.
pub proof fn lemma_encode_segments_free(m: Mode, c: char)
    requires
        mode_free_of(m, c),
        c == '|' || c == '\n',
    ensures
        all_free_of(encode_segments(m), c),
        encode_segments(m).len() == 11,
{
    let p = m.parameters;
    lemma_parameter_keys();
    lemma_render_int_free(p.top_k as int, c);
    lemma_render_int_free(p.context_size as int, c);
    lemma_render_int_free(p.thread_count as int, c);
    lemma_render_int_free(p.gpu_layers as int, c);
    lemma_render_bool(p.interactive_first);
    assert(is_parameter_key("temp"@));
    assert(is_parameter_key("top_k"@));
    assert(is_parameter_key("top_p"@));
    assert(is_parameter_key("ctx_size"@));
    assert(is_parameter_key("threads"@));
    assert(is_parameter_key("gpu_layers"@));
    assert(is_parameter_key("interactive_first"@));
    lemma_stored_parameter_free("temp"@, p.temperature, c);
    lemma_stored_parameter_free("top_k"@, render_int(p.top_k as int), c);
    lemma_stored_parameter_free("top_p"@, p.top_p, c);
    lemma_stored_parameter_free("ctx_size"@, render_int(p.context_size as int), c);
    lemma_stored_parameter_free("threads"@, render_int(p.thread_count as int), c);
    lemma_stored_parameter_free("gpu_layers"@, render_int(p.gpu_layers as int), c);
    lemma_stored_parameter_free("interactive_first"@, render_bool(p.interactive_first), c);
}

/// Decoding what was encoded gives the mode back, for every mode in
/// canonical form and whatever the directories of relative paths are.
#[verifier::rlimit(40)]
pub proof fn lemma_decode_encode(
    m: Mode,
    home: Seq<char>,
    prompts_dir: Seq<char>,
    default_threads: i32,
)
    requires
        is_canonical(m),
    ensures
        split(encode(m), '|') == encode_segments(m),
        decode(encode(m), home, prompts_dir, default_threads) == Some(m),
{
    let parts = encode_segments(m);
    let p = m.parameters;
    let dt = default_threads;
    lemma_parameter_keys();
    lemma_encode_segments_free(m, '|');
    lemma_render_bool(p.interactive_first);
    assert(all_free_of(parts, '|'));
    lemma_split_join(parts, '|');

    // The parameters, segment by segment.
    let q0 = default_parameters(dt);
    assert(parts.take(0) =~= Seq::<Seq<char>>::empty());
    assert(parse_parameters(parts.take(0), dt) == q0);
    lemma_parameters_step(parts, 0, dt);
    assert(apply_token(q0, parts[0]) == q0) by {
        if parts[0].contains('=') {
            lemma_find_char(parts[0], '=');
            let key = parts[0].take(find_char(parts[0], '='));
            if is_parameter_key(key) {
                assert(key[0] == parts[0][0]);
            }
        }
        lemma_apply_other(q0, parts[0]);
    }
    lemma_parameters_step(parts, 1, dt);
    lemma_apply_other(q0, parts[1]);
    lemma_parameters_step(parts, 2, dt);
    lemma_apply_temp(q0, p.temperature);
    let q3 = Parameters { temperature: p.temperature, ..q0 };
    assert(parse_parameters(parts.take(3), dt) == q3);
    lemma_parameters_step(parts, 3, dt);
    lemma_apply_top_k(q3, render_int(p.top_k as int));
    lemma_parse_render_int(p.top_k as int, i32::MIN as int, i32::MAX as int);
    let q4 = Parameters { top_k: p.top_k, ..q3 };
    assert(parse_parameters(parts.take(4), dt) == q4);
    lemma_parameters_step(parts, 4, dt);
    lemma_apply_top_p(q4, p.top_p);
    let q5 = Parameters { top_p: p.top_p, ..q4 };
    assert(parse_parameters(parts.take(5), dt) == q5);
    lemma_parameters_step(parts, 5, dt);
    lemma_apply_ctx_size(q5, render_int(p.context_size as int));
    lemma_parse_render_int(p.context_size as int, i32::MIN as int, i32::MAX as int);
    let q6 = Parameters { context_size: p.context_size, ..q5 };
    assert(parse_parameters(parts.take(6), dt) == q6);
    lemma_parameters_step(parts, 6, dt);
    lemma_apply_threads(q6, render_int(p.thread_count as int));
    lemma_parse_render_int(p.thread_count as int, i32::MIN as int, i32::MAX as int);
    let q7 = Parameters { thread_count: p.thread_count, ..q6 };
    assert(parse_parameters(parts.take(7), dt) == q7);
    lemma_parameters_step(parts, 7, dt);
    lemma_apply_gpu_layers(q7, render_int(p.gpu_layers as int));
    lemma_parse_render_int(p.gpu_layers as int, i32::MIN as int, i32::MAX as int);
    let q8 = Parameters { gpu_layers: p.gpu_layers, ..q7 };
    assert(parse_parameters(parts.take(8), dt) == q8);
    lemma_parameters_step(parts, 8, dt);
    lemma_apply_interactive_first(q8, render_bool(p.interactive_first));
    let q9 = Parameters { interactive_first: p.interactive_first, ..q8 };
    assert(parse_parameters(parts.take(9), dt) == q9);
    assert(q9 == p);
    lemma_parameters_step(parts, 9, dt);
    lemma_apply_other(p, parts[9]);
    lemma_parameters_step(parts, 10, dt);
    lemma_apply_other(p, parts[10]);
    assert(parts.take(11) =~= parts);
    assert(parse_parameters(parts, dt) == p);

    // The segments without `=`.
    lemma_token_has_equals("temp"@, p.temperature);
    lemma_token_has_equals("top_k"@, render_int(p.top_k as int));
    lemma_token_has_equals("top_p"@, p.top_p);
    lemma_token_has_equals("ctx_size"@, render_int(p.context_size as int));
    lemma_token_has_equals("threads"@, render_int(p.thread_count as int));
    lemma_token_has_equals("gpu_layers"@, render_int(p.gpu_layers as int));
    lemma_token_has_equals("interactive_first"@, render_bool(p.interactive_first));
    let first = plain_segments(parts.take(1));
    lemma_plain_step(parts, 1);
    lemma_plain_step(parts, 2);
    lemma_plain_step(parts, 3);
    lemma_plain_step(parts, 4);
    lemma_plain_step(parts, 5);
    lemma_plain_step(parts, 6);
    lemma_plain_step(parts, 7);
    lemma_plain_step(parts, 8);
    lemma_plain_step(parts, 9);
    lemma_plain_step(parts, 10);
    assert(plain_segments(parts) == first.push(m.prompt_path).push(m.name).push(m.description));
    assert(segments_name(parts) == m.name);
    assert(segments_description(parts) == m.description);
    assert(decode_segments(parts, home, prompts_dir, dt) == m);
}

/// A stored parameter holds `=`.
pub proof fn lemma_token_has_equals(key: Seq<char>, value: Seq<char>)
    ensures
        (key.push('=') + value).contains('='),
{
    assert((key.push('=') + value)[key.len() as int] == '=');
}

/// A digit, a point and a digit make a floating-point literal without `|`.
pub proof fn lemma_simple_decimal(s: Seq<char>)
    requires
        s.len() == 3,
        is_digit(s[0]),
        s[1] == '.',
        is_digit(s[2]),
    ensures
        is_float_text(s),
        !s.contains('|'),
{
    let rest = s.skip(1);
    let fraction = rest.drop_first();
    assert(s.drop_first() =~= rest);
    assert(rest[0] == '.');
    assert(leading_digits(rest) == 0);
    assert(leading_digits(s) == 1);
    assert(fraction.len() == 1 && fraction[0] == s[2]);
    assert(fraction.drop_first().len() == 0);
    assert(leading_digits(fraction.drop_first()) == 0);
    assert(leading_digits(fraction) == 1);
    assert(fraction.skip(1).len() == 0);
    assert(is_exponent_or_empty(fraction.skip(1)));
    assert(is_number(s));
    if s.contains('|') {
        let k = choose|k: int| 0 <= k < s.len() && s[k] == '|';
        assert(s[k] == '|');
    }
}

/// The default parameters can be stored.
pub proof fn lemma_default_storable(default_threads: i32)
    ensures
        storable_parameters(default_parameters(default_threads)),
{
    reveal_strlit("0.8");
    reveal_strlit("0.9");
    lemma_simple_decimal("0.8"@);
    lemma_simple_decimal("0.9"@);
}

/// Parameters that can be stored still can after one more token without
/// `|` was read.
pub proof fn lemma_apply_storable(p: Parameters, token: Seq<char>)
    requires
        storable_parameters(p),
        !token.contains('|'),
    ensures
        storable_parameters(apply_token(p, token)),
{
    if token.contains('=') {
        lemma_find_char(token, '=');
        let at = find_char(token, '=');
        lemma_contains_subrange(token, at + 1, token.len() as int, '|');
        assert(token.skip(at + 1) =~= token.subrange(at + 1, token.len() as int));
    }
}

/// The parameters read from segments without `|` can be stored.
pub proof fn lemma_parameters_storable(parts: Seq<Seq<char>>, default_threads: i32)
    requires
        all_free_of(parts, '|'),
    ensures
        storable_parameters(parse_parameters(parts, default_threads)),
    decreases parts.len(),
{
    if parts.len() == 0 {
        lemma_default_storable(default_threads);
    } else {
        let head = parts.drop_last();
        assert(all_free_of(head, '|')) by {
            assert forall|i: int| 0 <= i < head.len() implies !(#[trigger] head[i]).contains(
                '|',
            ) by {
                assert(head[i] == parts[i]);
            }
        }
        lemma_parameters_storable(head, default_threads);
        assert(!parts[parts.len() - 1].contains('|'));
        lemma_apply_storable(parse_parameters(head, default_threads), parts.last());
    }
}

/// Each segment without `=` is one of the segments.
pub proof fn lemma_plain_segments(parts: Seq<Seq<char>>, c: char)
    requires
        all_free_of(parts, c),
    ensures
        all_free_of(plain_segments(parts), c),
        all_free_of(plain_segments(parts), '='),
    decreases parts.len(),
{
    if parts.len() > 0 {
        let head = parts.drop_last();
        assert(all_free_of(head, c)) by {
            assert forall|i: int| 0 <= i < head.len() implies !(#[trigger] head[i]).contains(
                c,
            ) by {
                assert(head[i] == parts[i]);
            }
        }
        lemma_plain_segments(head, c);
        assert(!parts[parts.len() - 1].contains(c));
    }
}

/// A relative path below a base directory is absolute and holds `c` only
/// where one of the two does.
pub proof fn lemma_join_below_base(base: Seq<char>, rel: Seq<char>, c: char)
    requires
        is_absolute(base),
        !is_absolute(rel),
        !base.contains(c),
        !rel.contains(c),
        c != '/',
    ensures
        is_absolute(join_path(base, rel)),
        !join_path(base, rel).contains(c),
{
    lemma_contains_add(base, rel, c);
    lemma_contains_push(base, '/', c);
    lemma_contains_add(base.push('/'), rel, c);
    assert((base + rel)[0] == base[0]);
    assert((base.push('/') + rel)[0] == base[0]);
}

/// The file part of a stored prompt path is a piece of it that does not
/// begin with `/`.
pub proof fn lemma_prompt_file_part(stored: Seq<char>, c: char)
    requires
        !stored.contains(c),
    ensures
        !is_absolute(prompt_file_part(stored)),
        !prompt_file_part(stored).contains(c),
{
    let inner = strip_prefix_all(stored, "prompts/"@);
    lemma_strip_prefix_all(stored, "prompts/"@);
    crate::trim::lemma_strip_start_shape(inner, '/');
    let a = stored.len() - inner.len();
    lemma_contains_subrange(stored, a, stored.len() as int, c);
    assert(stored.skip(a) =~= stored.subrange(a, stored.len() as int));
    let b = inner.len() - strip_start(inner, '/').len();
    lemma_contains_subrange(inner, b, inner.len() as int, c);
    assert(inner.skip(b) =~= inner.subrange(b, inner.len() as int));
}

/// The blank prompt of a base directory without `=` is an absolute path
/// with neither `|` nor `=`.
pub proof fn lemma_blank_prompt(prompts_dir: Seq<char>)
    requires
        is_base_dir(prompts_dir),
        !prompts_dir.contains('='),
    ensures
        is_absolute(blank_prompt_path(prompts_dir)),
        !blank_prompt_path(prompts_dir).contains('|'),
        !blank_prompt_path(prompts_dir).contains('='),
{
    reveal_strlit("blankprompt.txt");
    let name = "blankprompt.txt"@;
    if name.contains('|') {
        let k = choose|k: int| 0 <= k < name.len() && name[k] == '|';
        assert(name[k] == '|');
    }
    if name.contains('=') {
        let k = choose|k: int| 0 <= k < name.len() && name[k] == '=';
        assert(name[k] == '=');
    }
    lemma_join_below_base(prompts_dir, name, '|');
    lemma_join_below_base(prompts_dir, name, '=');
}

/// What decoding gives is in canonical form, where the directories of
/// relative paths are absolute and hold no `|`, and the prompt directory
/// holds no `=`.
#[verifier::rlimit(40)]
pub proof fn lemma_decode_is_canonical(
    text: Seq<char>,
    home: Seq<char>,
    prompts_dir: Seq<char>,
    default_threads: i32,
)
    requires
        is_base_dir(home),
        is_base_dir(prompts_dir),
        !prompts_dir.contains('='),
        split(text, '|').len() >= 2,
    ensures
        decode(text, home, prompts_dir, default_threads) is Some,
        is_canonical(decode(text, home, prompts_dir, default_threads)->0),
{
    let parts = split(text, '|');
    let m = decode_segments(parts, home, prompts_dir, default_threads);
    lemma_split_shape(text, '|');
    assert(!parts[0].contains('|'));
    assert(!parts[1].contains('|'));
    // The model path.
    if !is_absolute(parts[0]) {
        lemma_join_below_base(home, parts[0], '|');
    }
    // The prompt path.
    lemma_blank_prompt(prompts_dir);
    if !parts[1].contains('=') && !is_absolute(parts[1]) {
        lemma_prompt_file_part(parts[1], '|');
        lemma_prompt_file_part(parts[1], '=');
        lemma_join_below_base(prompts_dir, prompt_file_part(parts[1]), '|');
        lemma_join_below_base(prompts_dir, prompt_file_part(parts[1]), '=');
    }
    // The name and the description.
    lemma_plain_segments(parts, '|');
    let plain = plain_segments(parts);
    if plain.len() >= 2 {
        assert(!plain[plain.len() - 2].contains('|'));
        assert(!plain[plain.len() - 1].contains('|'));
        assert(!plain[plain.len() - 2].contains('='));
        assert(!plain[plain.len() - 1].contains('='));
    } else {
        assert(!Seq::<char>::empty().contains('|'));
        assert(!Seq::<char>::empty().contains('='));
    }
    // The parameters.
    lemma_parameters_storable(parts, default_threads);
}

/// Round-trip stability: a stored text that decodes to a mode decodes to
/// the same mode after that mode was encoded. One pass through decoding
/// and encoding brings a text to its canonical form, and a second changes
/// nothing more.
///
/// This holds where the directories of relative paths are absolute and
/// hold no `|`, and the prompt directory holds no `=`.
pub proof fn lemma_roundtrip_stable(
    text: Seq<char>,
    home: Seq<char>,
    prompts_dir: Seq<char>,
    default_threads: i32,
)
    requires
        is_base_dir(home),
        is_base_dir(prompts_dir),
        !prompts_dir.contains('='),
        split(text, '|').len() >= 2,
    ensures
        decode(text, home, prompts_dir, default_threads) is Some,
        decode(
            encode(decode(text, home, prompts_dir, default_threads)->0),
            home,
            prompts_dir,
            default_threads,
        ) == decode(text, home, prompts_dir, default_threads),
{
    lemma_decode_is_canonical(text, home, prompts_dir, default_threads);
    lemma_decode_encode(
        decode(text, home, prompts_dir, default_threads)->0,
        home,
        prompts_dir,
        default_threads,
    );
}

} // verus!
