use query_gguf::mode::{
    decode_mode, encode_mode, record_state, ChatModeConfig, LaunchConfiguration, RecordState,
};
use query_gguf::params::LlamaCppParameters;

const HOME: &str = "/home/u";
const PROMPTS: &str = "/home/u/query_gguf/prompts";

fn decoded(text: &str) -> ChatModeConfig {
    decode_mode(text, HOME, PROMPTS, 7).expect("a mode")
}

#[test]
fn example_line_is_decoded() {
    let m = decoded("/models/a.gguf|prompts/x.txt|temp=0.8|top_k=40|Fast|quick answers");
    assert_eq!(m.model_path, "/models/a.gguf");
    assert_eq!(m.prompt_path, "/home/u/query_gguf/prompts/x.txt");
    assert_eq!(m.parameters.temperature_value, "0.8");
    assert_eq!(m.parameters.temperature_value.parse::<f32>().unwrap(), 0.8f32);
    assert_eq!(m.parameters.top_k_sampling, 40);
    assert_eq!(m.name, "Fast");
    assert_eq!(m.description, "quick answers");
    assert_eq!(m.parameters.top_p_sampling, "0.9");
    assert_eq!(m.parameters.context_size, 2000);
    assert_eq!(m.parameters.thread_count, 7);
    assert_eq!(m.parameters.gpu_layers, 0);
    assert!(m.parameters.interactive_first);
}

#[test]
fn relative_model_path_goes_below_home() {
    let m = decoded("models/a.gguf|x.txt|n|d");
    assert_eq!(m.model_path, "/home/u/models/a.gguf");
    assert_eq!(m.prompt_path, "/home/u/query_gguf/prompts/x.txt");
}

#[test]
fn base_directory_with_a_slash_at_its_end_is_joined_once() {
    let m = decode_mode("models/a.gguf|x.txt|n|d", "/home/u/", "/home/u/prompts/", 7).unwrap();
    assert_eq!(m.model_path, "/home/u/models/a.gguf");
    assert_eq!(m.prompt_path, "/home/u/prompts/x.txt");
}

#[test]
fn prompt_path_is_not_nested_twice() {
    assert_eq!(
        decoded("/m|prompts/prompts//x.txt|n|d").prompt_path,
        "/home/u/query_gguf/prompts/x.txt"
    );
    assert_eq!(decoded("/m|/abs/p.txt|n|d").prompt_path, "/abs/p.txt");
    assert_eq!(decoded("/m|sub/p.txt|n|d").prompt_path, "/home/u/query_gguf/prompts/sub/p.txt");
    assert_eq!(decoded("/m||n|d").prompt_path, "/home/u/query_gguf/prompts/");
}

#[test]
fn prompt_path_with_equals_sign_gives_the_blank_prompt() {
    let m = decoded("/m|temp=0.5|n|d");
    assert_eq!(m.prompt_path, "/home/u/query_gguf/prompts/blankprompt.txt");
    assert_eq!(m.parameters.temperature_value, "0.5");
    assert_eq!(m.name, "n");
    assert_eq!(m.description, "d");
}

#[test]
fn one_segment_is_no_mode() {
    assert!(decode_mode("/models/a.gguf", HOME, PROMPTS, 7).is_none());
    assert!(decode_mode("", HOME, PROMPTS, 7).is_none());
    assert!(decode_mode("temp=0.8", HOME, PROMPTS, 7).is_none());
    assert!(decode_mode("|", HOME, PROMPTS, 7).is_some());
}

#[test]
fn name_and_description_are_the_last_two_plain_segments() {
    let m = decoded("/m|p.txt|top_k=5|a|b|c|ctx_size=100|d");
    assert_eq!(m.name, "c");
    assert_eq!(m.description, "d");
    let m = decoded("/m|p.txt");
    assert_eq!(m.name, "/m");
    assert_eq!(m.description, "p.txt");
}

#[test]
fn fewer_than_two_plain_segments_leave_the_names_empty() {
    let m = decoded("/m|temp=0.5");
    assert_eq!(m.name, "");
    assert_eq!(m.description, "");
    let m = decoded("a=1|b=2|c=3");
    assert_eq!(m.name, "");
    assert_eq!(m.description, "");
    assert_eq!(m.model_path, "/home/u/a=1");
}

#[test]
fn unreadable_parameter_stays_at_its_default() {
    let m = decoded("/m|p.txt|top_k=abc|temp=hot|threads=|interactive_first=yes|gpu_layers=1.5|n|d");
    assert_eq!(m.parameters, LlamaCppParameters::new(7));
    assert_eq!(m.name, "n");
    assert_eq!(m.description, "d");
    assert_eq!(m.model_path, "/m");
}

#[test]
fn unknown_keys_are_passed_over() {
    let m = decoded("/m|p.txt|seed=5|top_k=12|n|d");
    assert_eq!(m.parameters.top_k_sampling, 12);
    let mut expected = LlamaCppParameters::new(7);
    expected.top_k_sampling = 12;
    assert_eq!(m.parameters, expected);
}

#[test]
fn later_token_wins_and_keys_are_exact() {
    let m = decoded("/m|p.txt|top_k=1|top_k=2| top_k=3|top_k =4|TOP_K=5|n|d");
    assert_eq!(m.parameters.top_k_sampling, 2);
    let m = decoded("/m|p.txt|top_k= 7|n|d");
    assert_eq!(m.parameters.top_k_sampling, 40);
}

#[test]
fn all_parameters_are_read() {
    let m = decoded(
        "/m|p.txt|temp=0.25|top_k=50|top_p=1|ctx_size=5000|threads=3|gpu_layers=2|interactive_first=false|n|d",
    );
    assert_eq!(m.parameters.temperature_value, "0.25");
    assert_eq!(m.parameters.top_k_sampling, 50);
    assert_eq!(m.parameters.top_p_sampling, "1");
    assert_eq!(m.parameters.context_size, 5000);
    assert_eq!(m.parameters.thread_count, 3);
    assert_eq!(m.parameters.gpu_layers, 2);
    assert!(!m.parameters.interactive_first);
}

#[test]
fn thread_count_is_taken_as_written() {
    assert_eq!(decoded("/m|p|threads=0|n|d").parameters.thread_count, 0);
    assert_eq!(decoded("/m|p|threads=-4|n|d").parameters.thread_count, -4);
    assert_eq!(decoded("/m|p|threads=8|n|d").parameters.thread_count, 8);
    assert_eq!(decoded("/m|p|threads=9|n|d").parameters.thread_count, 9);
    assert_eq!(decoded("/m|p|threads=64|n|d").parameters.thread_count, 64);
    assert_eq!(decoded("/m|p|threads=2147483647|n|d").parameters.thread_count, i32::MAX);
    assert_eq!(decoded("/m|p|threads=2147483648|n|d").parameters.thread_count, 7);
}

#[test]
fn record_state_tells_skipped_and_unnamed_records() {
    assert_eq!(record_state("/models/a.gguf"), RecordState::TooFewSegments);
    assert_eq!(record_state(""), RecordState::TooFewSegments);
    assert_eq!(record_state("/m|temp=0.5"), RecordState::Unnamed);
    assert_eq!(record_state("a=1|b=2|c=3"), RecordState::Unnamed);
    assert_eq!(record_state("/m|p.txt"), RecordState::Complete);
    assert_eq!(record_state("/m|p.txt|temp=0.8|Fast|quick answers"), RecordState::Complete);
    assert_eq!(record_state("|"), RecordState::Complete);
}

#[test]
fn value_is_cut_at_the_first_equals_sign() {
    let m = decoded("/m|p.txt|temp=0.5=x|top_k=3|n|d");
    assert_eq!(m.parameters.temperature_value, "0.8");
    assert_eq!(m.parameters.top_k_sampling, 3);
}

fn sample_mode() -> ChatModeConfig {
    ChatModeConfig {
        name: "llama3.2".to_string(),
        description: "small quantized version".to_string(),
        model_path: "/models/Llama-3.2-1B.gguf".to_string(),
        prompt_path: "/home/u/query_gguf/prompts/shortcode.txt".to_string(),
        parameters: LlamaCppParameters {
            temperature_value: "0.8".to_string(),
            top_k_sampling: 40,
            top_p_sampling: "0.9".to_string(),
            context_size: 2000,
            thread_count: 11,
            gpu_layers: 0,
            interactive_first: true,
        },
    }
}

#[test]
fn encoding_is_exact() {
    assert_eq!(
        encode_mode(&sample_mode()),
        "/models/Llama-3.2-1B.gguf|/home/u/query_gguf/prompts/shortcode.txt|temp=0.8|top_k=40|top_p=0.9|ctx_size=2000|threads=11|gpu_layers=0|interactive_first=true|llama3.2|small quantized version"
    );
}

#[test]
fn encoding_writes_negative_numbers_and_false() {
    let mut m = sample_mode();
    m.parameters.top_k_sampling = -3;
    m.parameters.gpu_layers = i32::MIN;
    m.parameters.interactive_first = false;
    m.name = String::new();
    m.description = String::new();
    assert_eq!(
        encode_mode(&m),
        "/models/Llama-3.2-1B.gguf|/home/u/query_gguf/prompts/shortcode.txt|temp=0.8|top_k=-3|top_p=0.9|ctx_size=2000|threads=11|gpu_layers=-2147483648|interactive_first=false||"
    );
}

#[test]
fn encoded_mode_is_decoded_to_itself() {
    let m = sample_mode();
    assert_eq!(decode_mode(&encode_mode(&m), HOME, PROMPTS, 11), Some(m.clone()));
    assert_eq!(decode_mode(&encode_mode(&m), "/other", "/elsewhere", 11), Some(m));
}

#[test]
fn one_pass_brings_a_text_to_its_canonical_form() {
    let texts = [
        "/models/a.gguf|prompts/x.txt|temp=0.8|top_k=40|Fast|quick answers",
        "models/a.gguf|x.txt|n|d",
        "/m|temp=0.5|n|d",
        "/m|p.txt",
        "a=1|b=2",
        "|",
        "/m|p.txt|threads=99|top_p=1e-1|gpu_layers=-1|interactive_first=false|temp=+.5|n|d",
        "/m|p.txt|threads=0|n|d",
        "/m|p.txt|threads=-2147483648|n|d",
        "/m|p.txt|top_k=abc|x|y|z",
    ];
    for text in texts {
        let first = decode_mode(text, HOME, PROMPTS, 7).expect("a mode");
        let again = decode_mode(&encode_mode(&first), HOME, PROMPTS, 7);
        assert_eq!(again, Some(first), "{:?}", text);
    }
}

#[test]
fn old_format_is_upgraded_to_the_full_form() {
    let m = decoded("/models/a.gguf|prompts/x.txt|temp=0.8|top_k=40|Fast|quick answers");
    assert_eq!(
        encode_mode(&m),
        "/models/a.gguf|/home/u/query_gguf/prompts/x.txt|temp=0.8|top_k=40|top_p=0.9|ctx_size=2000|threads=7|gpu_layers=0|interactive_first=true|Fast|quick answers"
    );
}

#[test]
fn fractional_parameters_keep_their_text() {
    let m = decoded("/m|p.txt|temp=0.80|top_p=1E0|n|d");
    assert_eq!(m.parameters.temperature_value, "0.80");
    assert_eq!(m.parameters.top_p_sampling, "1E0");
    assert!(encode_mode(&m).contains("|temp=0.80|"));
    assert!(encode_mode(&m).contains("|top_p=1E0|"));
}

#[test]
fn duplicate_is_equal() {
    let m = sample_mode();
    assert_eq!(m.duplicate(), m);
    assert_eq!(m.parameters.duplicate(), m.parameters);
}

#[test]
fn named_mode_takes_trimmed_entries() {
    let config = LaunchConfiguration {
        model_path: "/m.gguf".to_string(),
        prompt_path: "/p.txt".to_string(),
        parameters: LlamaCppParameters::new(3),
    };
    let m = ChatModeConfig::named(&config, "  quick \n", " for short answers\n").expect("a mode");
    assert_eq!(m.name, "quick");
    assert_eq!(m.description, "for short answers");
    assert_eq!(m.model_path, "/m.gguf");
    assert_eq!(m.prompt_path, "/p.txt");
    assert_eq!(m.parameters, LlamaCppParameters::new(3));
    assert!(ChatModeConfig::named(&config, " \n", "d").is_none());
    assert_eq!(ChatModeConfig::named(&config, "n", "").unwrap().description, "");
}
