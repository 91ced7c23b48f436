use query_gguf::readback::can_be_stored;
use query_gguf::mode::{encode_mode, ChatModeConfig};
use query_gguf::params::LlamaCppParameters;
use query_gguf::store::{get_default_mode, next_mode_number, read_saved_modes, save_mode_to_config};

const HOME: &str = "/home/u";
const PROMPTS: &str = "/home/u/query_gguf/prompts";

fn mode(name: &str, description: &str) -> ChatModeConfig {
    ChatModeConfig {
        name: name.to_string(),
        description: description.to_string(),
        model_path: "/models/a.gguf".to_string(),
        prompt_path: "/home/u/query_gguf/prompts/x.txt".to_string(),
        parameters: LlamaCppParameters {
            temperature_value: "0.7".to_string(),
            top_k_sampling: 30,
            top_p_sampling: "0.95".to_string(),
            context_size: 4096,
            thread_count: 4,
            gpu_layers: 2,
            interactive_first: false,
        },
    }
}

fn names(text: &str) -> Vec<String> {
    read_saved_modes(text, HOME, PROMPTS, 7).into_iter().map(|m| m.name).collect()
}

#[test]
fn modes_are_listed_in_order_of_their_numbers() {
    let text = "mode_3 = \"/m|p|C|c\"\nmode_1 = \"/m|p|A|a\"\n  mode_2 = \"/m|p|B|b\"\n";
    assert_eq!(names(text), vec!["A", "B", "C"]);
}

#[test]
fn one_segment_mode_is_skipped_and_the_rest_is_listed() {
    let text = "mode_1 = \"/m|p|A|a\"\nmode_2 = \"broken\"\nmode_3 = \"/m|p|C|c\"\n";
    assert_eq!(names(text), vec!["A", "C"]);
    assert!(read_saved_modes("mode_1 = \"only\"\n", HOME, PROMPTS, 7).is_empty());
    assert!(read_saved_modes("", HOME, PROMPTS, 7).is_empty());
}

#[test]
fn listed_mode_has_all_fields() {
    let text = "mode_1 = \"/models/a.gguf|prompts/x.txt|temp=0.8|top_k=40|Fast|quick answers\"\n";
    let modes = read_saved_modes(text, HOME, PROMPTS, 7);
    assert_eq!(modes.len(), 1);
    assert_eq!(modes[0].model_path, "/models/a.gguf");
    assert_eq!(modes[0].prompt_path, "/home/u/query_gguf/prompts/x.txt");
    assert_eq!(modes[0].name, "Fast");
    assert_eq!(modes[0].description, "quick answers");
    assert_eq!(modes[0].parameters.top_k_sampling, 40);
    assert_eq!(modes[0].parameters.thread_count, 7);
}

#[test]
fn next_number_counts_lines_that_begin_with_mode() {
    assert_eq!(next_mode_number(""), 1);
    assert_eq!(next_mode_number("default_mode = 1\n# mode_1\n"), 1);
    assert_eq!(next_mode_number("mode_1 = \"/m|p|A|a\"\n"), 2);
    assert_eq!(next_mode_number("mode_1 = \"broken\"\nmode_x\nmode_7 = \"/m|p|A|a\""), 4);
    assert_eq!(next_mode_number("  mode_1 = \"/m|p|A|a\"\n"), 1);
    assert_eq!(next_mode_number("mode_1 = 1\r\nmode_2 = 2\r\n"), 3);
}

#[test]
fn appending_a_second_mode_uses_the_key_mode_2() {
    for first in ["mode_1 = \"/m|p|A|a\"\n", "mode_1 = \"broken\"\n", "mode_1\n", "mode_1 = \"\""] {
        let saved = save_mode_to_config(first, &mode("B", "b"), false);
        let key_line = saved.lines().last().unwrap();
        assert!(key_line.starts_with("mode_2 = \""), "{:?}", saved);
    }
}

#[test]
fn saved_text_is_exact() {
    let m = mode("Fast", "quick answers");
    let saved = save_mode_to_config("llama_cli_path = \"/bin/llama-cli\"\n", &m, false);
    assert_eq!(
        saved,
        "llama_cli_path = \"/bin/llama-cli\"\n\n# Mode 1 - Fast - quick answers\nmode_1 = \"/models/a.gguf|/home/u/query_gguf/prompts/x.txt|temp=0.7|top_k=30|top_p=0.95|ctx_size=4096|threads=4|gpu_layers=2|interactive_first=false|Fast|quick answers\"\n"
    );
}

#[test]
fn saved_text_with_new_default_is_exact() {
    let m = mode("B", "b");
    let text = "a = 1\r\ndefault_mode = 1\nmode_1 = \"/m|p|A|a\"\n  default_mode = 9\ndefault_model = x";
    let saved = save_mode_to_config(text, &m, true);
    let expected = format!(
        "a = 1\nmode_1 = \"/m|p|A|a\"\ndefault_model = x\ndefault_mode = 2\n\n# Mode 2 - B - b\nmode_2 = \"{}\"\n",
        encode_mode(&m)
    );
    assert_eq!(saved, expected);
    assert_eq!(get_default_mode(&saved), Some(2));
}

#[test]
fn only_assignments_to_default_mode_are_dropped() {
    let text = "# default_mode = 1\ndefault_mode\ndefault_mode_old = 4\ndefault_mode=3\n\tdefault_mode = \"5\"\nx = default_mode\n";
    let saved = save_mode_to_config(text, &mode("B", "b"), true);
    assert!(saved.starts_with(
        "# default_mode = 1\ndefault_mode\ndefault_mode_old = 4\nx = default_mode\ndefault_mode = 1\n\n# Mode 1 - B - b\n"
    ));
    let kept = save_mode_to_config(text, &mode("B", "b"), false);
    assert!(kept.starts_with(text));
    assert_eq!(get_default_mode(&kept), Some(3));
}

#[test]
fn new_default_is_read_back() {
    let texts = [
        "",
        "default_mode = 1\nmode_1 = \"/m|p|A|a\"\n",
        "default_mode = 1\ndefault_mode = 7\n",
        "  default_mode = 9\nmode_1 = \"/m|p|A|a\"",
        "default_mode = x\r\nmode_1 = \"broken\"\r\nmode_2 = \"/m|p|B|b\"\r\n",
        "mode_1 = \"/m|p|A|a\"\ndefault_mode = 1",
    ];
    for text in texts {
        for m in [mode("B", "b"), mode("a|b", "default_mode = 99"), mode("", "")] {
            let number = next_mode_number(text);
            let saved = save_mode_to_config(text, &m, true);
            assert_eq!(get_default_mode(&saved), Some(number), "{:?}", text);
        }
    }
    let saved = save_mode_to_config("", &mode("B", "b"), true);
    assert_eq!(saved.lines().next(), Some(""));
}

#[test]
fn saved_mode_is_read_back_with_its_fields() {
    let texts = [
        "",
        "mode_1 = \"/m|p|A|a\"\n",
        "mode_1 = \"/m|p|A|a\"",
        "mode_1 = \"/m|p|A|a\"\r",
        "mode_5 = \"/m|p|E|e\"\nmode_4 = \"/m|p|D|d\"\ndefault_mode = 4\n",
        "mode_1 = \"broken\"\nmode_2 = \"/m|p|B|b\"\n",
    ];
    let added = mode("New", "just saved");
    for text in texts {
        for make_default in [false, true] {
            let before = read_saved_modes(text, HOME, PROMPTS, 7);
            let saved = save_mode_to_config(text, &added, make_default);
            let after = read_saved_modes(&saved, HOME, PROMPTS, 7);
            assert_eq!(after.len(), before.len() + 1, "{:?}", text);
            let at = after.iter().position(|m| *m == added).expect("the saved mode");
            let mut rest = after.clone();
            rest.remove(at);
            assert_eq!(rest, before, "{:?}", text);
        }
    }
}

#[test]
fn saved_mode_is_placed_by_its_number() {
    let text = "mode_5 = \"/m|p|E|e\"\nmode_1 = \"/m|p|A|a\"\n";
    let saved = save_mode_to_config(text, &mode("New", "n"), false);
    assert_eq!(names(&saved), vec!["A", "New", "E"]);
}

#[test]
fn numbering_and_listing_can_differ() {
    let text = "mode_1 = \"broken\"\nmode_2 = \"broken too\"\n";
    assert!(read_saved_modes(text, HOME, PROMPTS, 7).is_empty());
    let saved = save_mode_to_config(text, &mode("C", "c"), false);
    assert!(saved.contains("\nmode_3 = \""));
    assert_eq!(names(&saved), vec!["C"]);
}

#[test]
fn default_mode_is_a_number_or_nothing() {
    assert_eq!(get_default_mode("default_mode = 2\n"), Some(2));
    assert_eq!(get_default_mode("default_mode = \"3\"\n"), Some(3));
    assert_eq!(get_default_mode("default_mode = two\n"), None);
    assert_eq!(get_default_mode("default_mode = -1\n"), None);
    assert_eq!(get_default_mode("default_mode =\n"), None);
    assert_eq!(get_default_mode("mode_1 = \"/m|p|A|a\"\n"), None);
    assert_eq!(get_default_mode(""), None);
}

#[test]
fn storable_modes_are_told_apart() {
    assert!(can_be_stored(&mode("Fast", "quick answers")));
    assert!(can_be_stored(&mode("", "")));
    assert!(can_be_stored(&mode("a \"b\" c", "ends with a quote\"")));
    assert!(can_be_stored(&mode("\"", "\"\"")));
    assert!(!can_be_stored(&mode("a|b", "d")));
    assert!(!can_be_stored(&mode("a=b", "d")));
    assert!(!can_be_stored(&mode("n", "two\nlines")));
    assert!(!can_be_stored(&mode("n", "ends with a space ")));
    let mut m = mode("n", "d");
    m.model_path = "models/a.gguf".to_string();
    assert!(!can_be_stored(&m));
    let mut m = mode("n", "d");
    m.prompt_path = "/prompts/a=b.txt".to_string();
    assert!(!can_be_stored(&m));
    let mut m = mode("n", "d");
    m.parameters.temperature_value = "warm".to_string();
    assert!(!can_be_stored(&m));
    let mut m = mode("n", "d");
    m.parameters.thread_count = 0;
    assert!(can_be_stored(&m));
    m.parameters.thread_count = i32::MAX;
    assert!(can_be_stored(&m));
}

#[test]
fn storable_mode_is_read_back_and_another_may_not_be() {
    for good in [mode("a \"b\" c", "d"), mode("n", "ends with a quote\""), mode("\"", "\"\"")] {
        assert!(can_be_stored(&good));
        let saved = save_mode_to_config("", &good, false);
        assert_eq!(read_saved_modes(&saved, HOME, PROMPTS, 7), vec![good]);
    }

    let bad = mode("n", "ends with a space ");
    assert!(!can_be_stored(&bad));
    let saved = save_mode_to_config("", &bad, false);
    assert_ne!(read_saved_modes(&saved, HOME, PROMPTS, 7), vec![bad]);
}

#[test]
fn thread_count_is_read_back_as_saved() {
    for threads in [64, 1, 0, -3, i32::MAX, i32::MIN] {
        let mut m = mode("many", "threads");
        m.parameters.thread_count = threads;
        let saved = save_mode_to_config("mode_1 = \"/m|p|A|a\"\n", &m, false);
        for default_threads in [1, 3, 7, 63] {
            let modes = read_saved_modes(&saved, HOME, PROMPTS, default_threads);
            assert_eq!(modes.len(), 2);
            assert_eq!(modes[1], m);
            assert_eq!(modes[1].parameters.thread_count, threads);
        }
    }
}

#[test]
fn saving_adds_one_mode_whatever_the_texts_hold() {
    let odd = [
        mode("a|b", "c|d"),
        mode("a=b", "c=d"),
        mode(" padded ", " padded "),
        {
            let mut m = mode("n", "d");
            m.model_path = "relative/model.gguf".to_string();
            m.prompt_path = "a=b.txt".to_string();
            m.parameters.temperature_value = "warm".to_string();
            m.parameters.top_p_sampling = "a|b".to_string();
            m
        },
    ];
    let texts = ["", "mode_1 = \"/m|p|A|a\"\n", "mode_2 = \"/m|p|B|b\"\nmode_9 = \"/m|p|I|i\""];
    for m in odd.iter() {
        assert!(!can_be_stored(m));
        for text in texts {
            for make_default in [false, true] {
                let before = read_saved_modes(text, HOME, PROMPTS, 7);
                let saved = save_mode_to_config(text, m, make_default);
                let after = read_saved_modes(&saved, HOME, PROMPTS, 7);
                assert_eq!(after.len(), before.len() + 1, "{:?} {:?}", m.name, text);
            }
        }
    }
}
