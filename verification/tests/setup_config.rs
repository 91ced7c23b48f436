use query_gguf::setup::{generate_toml_config, SetupWizardResult};

#[test]
fn test_generate_toml_config() {
    let test_result = SetupWizardResult {
        gguf_model_directories: vec!["/path/to/models".to_string()],
        prompt_file_directories: vec!["/path/to/prompts".to_string()],
        log_directory_path: "/path/to/logs".to_string(),
        logging_enabled: true,
        llama_cpp_directory: "/path/to/llama-cli".to_string(),
    };

    let config = generate_toml_config(&test_result);

    assert!(config.contains("logging_enabled = true"));
    assert!(config.contains("/path/to/models"));
    assert!(config.contains("/path/to/prompts"));
    assert!(config.contains("/path/to/logs"));
    assert!(config.contains("/path/to/llama-cli"));
}

#[test]
fn generated_config_is_exact() {
    let result = SetupWizardResult {
        gguf_model_directories: vec!["/m/one".to_string(), "/m/two".to_string()],
        prompt_file_directories: vec!["/p".to_string()],
        log_directory_path: "/logs".to_string(),
        logging_enabled: true,
        llama_cpp_directory: "/bin/llama-cli".to_string(),
    };
    let expected = "# QueryGGUF Configuration File\n\n\
llama_cli_path = \"/bin/llama-cli\"\n\n\
logging_enabled = true\n\
log_directory_path = \"/logs\"\n\n\
gguf_model_directory_1 = \"/m/one\"\n\
gguf_model_directory_2 = \"/m/two\"\n\
\n\
prompt_file_directory_1 = \"/p\"\n\
prompt_directory = \"prompts\"\n\n\
# Configuration Examples:\n\
# Additional model directories can be added as:\n\
# gguf_model_directory_2 = \"/path/to/more/models\"\n\
# gguf_model_directory_3 = \"/another/path/to/models\"\n\n\
# Additional prompt directories can be added as:\n\
# prompt_directory_2 = \"/path/to/more/prompts\"\n\
# prompt_directory_3 = \"/another/path/to/prompts\"\n\n\
# example llama.cpp llama-cli path:\n\
# llama_cli_path = \"/home/oopsy/llama.cpp/build/bin/llama-cli\"\n\
# Saved modes will appear as:\n\
# mode_1 = \"model_path|prompt_path|temp=0.8|top_k=40|description\"\n\n";
    assert_eq!(generate_toml_config(&result), expected);
}

#[test]
fn generated_config_without_logging_has_no_log_directory() {
    let result = SetupWizardResult {
        gguf_model_directories: vec!["/m".to_string()],
        prompt_file_directories: vec![],
        log_directory_path: "/logs".to_string(),
        logging_enabled: false,
        llama_cpp_directory: "/bin/llama-cli".to_string(),
    };
    let config = generate_toml_config(&result);
    assert!(config.contains("logging_enabled = false\ngguf_model_directory_1 = \"/m\"\n\nprompt_directory"));
    assert!(!config.contains("log_directory_path"));
    assert!(!config.contains("prompt_file_directory_"));
}

#[test]
fn generated_config_numbers_past_nine() {
    let dirs: Vec<String> = (1..=12).map(|i| format!("/d{}", i)).collect();
    let result = SetupWizardResult {
        gguf_model_directories: dirs,
        prompt_file_directories: vec![],
        log_directory_path: String::new(),
        logging_enabled: false,
        llama_cpp_directory: "/x".to_string(),
    };
    let config = generate_toml_config(&result);
    assert!(config.contains("gguf_model_directory_10 = \"/d10\"\n"));
    assert!(config.contains("gguf_model_directory_12 = \"/d12\"\n"));
}
