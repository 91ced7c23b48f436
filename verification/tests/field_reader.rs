use query_gguf::field::{read_basename_fields_from_toml, read_field_from_toml};

const SAMPLE: &str = "# QueryGGUF Configuration File\n\nllama_cli_path = \"/home/u/llama.cpp/build/bin/llama-cli\"\nlogging_enabled = true\nlog_directory_path = \"query_gguf/chatlogs\"\n  prompt_directory   =   \"prompts\"  \ndefault_mode = 2\nmode_2 = \"/m/b.gguf|b.txt|B|second\"\n\t mode_10 = \"/m/j.gguf|j.txt|J|tenth\"\n# mode_3 = \"commented|out\"\nmode_1 = \"/m/a.gguf|a.txt|A|first\"\n";

#[test]
fn scalar_field_is_found_and_cleaned() {
    assert_eq!(
        read_field_from_toml(SAMPLE, "llama_cli_path"),
        "/home/u/llama.cpp/build/bin/llama-cli"
    );
    assert_eq!(read_field_from_toml(SAMPLE, "logging_enabled"), "true");
    assert_eq!(read_field_from_toml(SAMPLE, "prompt_directory"), "prompts");
    assert_eq!(read_field_from_toml(SAMPLE, "default_mode"), "2");
}

#[test]
fn scalar_field_needs_the_exact_key() {
    assert_eq!(read_field_from_toml(SAMPLE, "mode"), "");
    assert_eq!(read_field_from_toml(SAMPLE, "log_directory"), "");
    assert_eq!(read_field_from_toml(SAMPLE, "llama_cli_path_x"), "");
    assert_eq!(read_field_from_toml("ab = 1\na = 2\n", "a"), "2");
}

#[test]
fn scalar_field_missing_or_empty_name_gives_empty() {
    assert_eq!(read_field_from_toml(SAMPLE, "absent"), "");
    assert_eq!(read_field_from_toml(SAMPLE, ""), "");
    assert_eq!(read_field_from_toml("", "a"), "");
}

#[test]
fn scalar_field_takes_the_first_assignment() {
    assert_eq!(read_field_from_toml("a = 1\na = 2\n", "a"), "1");
    assert_eq!(read_field_from_toml("a = \"\"\na = 2\n", "a"), "");
    assert_eq!(read_field_from_toml("a =\na = 2\n", "a"), "");
}

#[test]
fn scalar_field_skips_comments_and_lines_without_assignment() {
    assert_eq!(read_field_from_toml("# a = 1\n   # a = 3\na\na = 2", "a"), "2");
}

#[test]
fn scalar_value_is_cut_at_the_first_equals_sign() {
    assert_eq!(read_field_from_toml("a = b=c\n", "a"), "b=c");
    assert_eq!(read_field_from_toml("a=\"x|temp=0.5\"\n", "a"), "x|temp=0.5");
}

#[test]
fn value_cleaning_strips_one_layer_of_quotes() {
    assert_eq!(read_field_from_toml("a = \"x\"\n", "a"), "x");
    assert_eq!(read_field_from_toml("a = \"\"x\"\"\n", "a"), "\"x\"");
    assert_eq!(
        read_field_from_toml("prompt_directory = \"\"\"prompts\"\"\"", "prompt_directory"),
        "\"\"prompts\"\""
    );
    assert_eq!(read_field_from_toml("a = \"  x y  \"\n", "a"), "x y");
    assert_eq!(read_field_from_toml("a = \" \"x\" \"\n", "a"), "\"x\"");
    assert_eq!(read_field_from_toml("a = \"x\n", "a"), "x");
    assert_eq!(read_field_from_toml("a = x\"\n", "a"), "x");
    assert_eq!(read_field_from_toml("a = say \"hi\"\n", "a"), "say \"hi");
    assert_eq!(read_field_from_toml("a = \"say \"hi\"\"\n", "a"), "say \"hi\"");
    assert_eq!(read_field_from_toml("a = \"\n", "a"), "");
    assert_eq!(read_field_from_toml("a = \"\"\n", "a"), "");
    assert_eq!(read_field_from_toml("a = \"\"\"\n", "a"), "\"");
}

#[test]
fn indexed_values_lose_one_layer_of_quotes() {
    assert_eq!(
        read_basename_fields_from_toml("x_1 = \"\"a\"\"\nx_2 = \"b\"\n", "x"),
        vec!["\"a\"", "b"]
    );
}

#[test]
fn carriage_returns_end_lines() {
    assert_eq!(read_field_from_toml("a = 1\r\nb = \"two\"\r\n", "b"), "two");
    assert_eq!(read_field_from_toml("a = 1\r\nb = \"two\"\r", "b"), "two");
}

#[test]
fn indexed_fields_come_in_order_of_their_numbers() {
    assert_eq!(
        read_basename_fields_from_toml(SAMPLE, "mode"),
        vec![
            "/m/a.gguf|a.txt|A|first".to_string(),
            "/m/b.gguf|b.txt|B|second".to_string(),
            "/m/j.gguf|j.txt|J|tenth".to_string(),
        ]
    );
}

#[test]
fn indexed_fields_with_equal_numbers_keep_line_order() {
    let text = "x_2 = b\nx_1 = a\nx_2 = c\nx_02 = d\nx_+1 = e\n";
    assert_eq!(
        read_basename_fields_from_toml(text, "x"),
        vec!["a", "e", "b", "c", "d"]
    );
}

#[test]
fn indexed_fields_need_a_number_and_a_value() {
    let text = "x_ = a\nx_a = b\nx_-1 = c\nx_1 = \"\"\nx_2\nx_3 = ok\nx_4x = d\n  x_5 = five\nxx_6 = six\nx_99999999999999999999999 = big\n";
    assert_eq!(read_basename_fields_from_toml(text, "x"), vec!["ok", "five"]);
}

#[test]
fn indexed_fields_of_an_empty_base_or_text_are_none() {
    assert!(read_basename_fields_from_toml(SAMPLE, "").is_empty());
    assert!(read_basename_fields_from_toml("", "mode").is_empty());
    assert!(read_basename_fields_from_toml(SAMPLE, "gguf_model_directory").is_empty());
}

#[test]
fn indexed_lookup_does_not_read_other_prefixes() {
    let text = "default_mode = 1\nmode_1 = \"a|b\"\nmodel_1 = \"c\"\n";
    assert_eq!(read_basename_fields_from_toml(text, "mode"), vec!["a|b"]);
    assert_eq!(read_basename_fields_from_toml(text, "model"), vec!["c"]);
}
