use query_gguf::launch::{
    command_with_pause, launch_command, macos_terminal_script, shell_command_with_pause,
};
use query_gguf::menu::{
    is_done, mode_menu_lines, parse_yes_no, pick_index, read_menu_entry, read_selection,
    select_mode, MenuAction, PickError, Selection,
};
use query_gguf::mode::ChatModeConfig;
use query_gguf::params::{
    get_system_cpu_count, parse_parameters_from_parts, validate_thread_count, LlamaCppParameters,
    ParameterField,
};
use query_gguf::setup::{DirectoryStep, SetupWizardResult};

fn mode(name: &str) -> ChatModeConfig {
    ChatModeConfig {
        name: name.to_string(),
        description: format!("about {}", name),
        model_path: "/models/a.gguf".to_string(),
        prompt_path: "/prompts/x.txt".to_string(),
        parameters: LlamaCppParameters::new(5),
    }
}

#[test]
fn command_line_is_exact() {
    assert_eq!(
        launch_command("/bin/llama-cli", &mode("A")),
        Some(
            "\"/bin/llama-cli\" -m \"/models/a.gguf\" --file \"/prompts/x.txt\" --temp 0.8 --top-k 40 --top-p 0.9 --ctx-size 2000 --threads 5 --interactive-first --no-display-prompt"
                .to_string()
        )
    );
}

#[test]
fn command_line_names_gpu_layers_only_where_there_are_some() {
    let mut m = mode("A");
    m.parameters.gpu_layers = 12;
    m.parameters.interactive_first = false;
    m.parameters.temperature_value = "1.5".to_string();
    assert_eq!(
        launch_command("llama-cli", &m),
        Some(
            "\"llama-cli\" -m \"/models/a.gguf\" --file \"/prompts/x.txt\" --temp 1.5 --top-k 40 --top-p 0.9 --ctx-size 2000 --threads 5 --n-gpu-layers 12 --no-display-prompt"
                .to_string()
        )
    );
    m.parameters.gpu_layers = -1;
    assert!(!launch_command("llama-cli", &m).unwrap().contains("gpu"));
}

#[test]
fn no_command_line_without_the_program() {
    assert_eq!(launch_command("", &mode("A")), None);
}

#[test]
fn terminal_arguments_are_exact() {
    assert_eq!(command_with_pause("run x"), "run x;read -p 'Press Enter to close...'");
    assert_eq!(
        shell_command_with_pause("run x"),
        "bash -c 'run x;read -p \"Press Enter to close...\"'"
    );
    assert_eq!(
        macos_terminal_script("run x"),
        "tell application \"Terminal\" to do script \"run x\""
    );
}

#[test]
fn yes_and_no_are_read_in_either_case() {
    for s in ["y", "Y", "yes", "YES", "Yes", " y \n", "yEs\n"] {
        assert_eq!(parse_yes_no(s), Some(true), "{:?}", s);
    }
    for s in ["n", "N", "no", "NO", " No\n"] {
        assert_eq!(parse_yes_no(s), Some(false), "{:?}", s);
    }
    for s in ["", "ye", "yess", "nope", "1", "true", "y e s"] {
        assert_eq!(parse_yes_no(s), None, "{:?}", s);
    }
}

#[test]
fn done_ends_a_list() {
    assert!(is_done("done"));
    assert!(is_done(" DONE\n"));
    assert!(is_done("Done"));
    assert!(!is_done("done."));
    assert!(!is_done("/dir/done"));
    assert!(!is_done(""));
}

#[test]
fn menu_entries_are_read_as_std_lowercases_them() {
    let entries = [
        "", "q", "Q", "quit", "QUIT", "exit", "Exit", "config", "CONFIG", "make", "MAKE",
        "ma\u{212A}e", "manual", "dir", "DIR", "directory", "Directory", "1", " 2 ", "+3", "0",
        "-1", "abc", "quit now", "mak", "1a", "\u{130}", "d\u{130}r",
    ];
    for entry in entries {
        let choice = entry.trim().to_lowercase();
        let expected = match choice.as_str() {
            "" => MenuAction::NoDefault,
            "quit" | "q" | "exit" => MenuAction::Quit,
            "config" => MenuAction::EditConfig,
            "make" | "manual" => MenuAction::Manual,
            "dir" | "directory" => MenuAction::Directory,
            number => match number.parse::<usize>() {
                Ok(n) => MenuAction::Launch(n),
                Err(_) => MenuAction::Invalid,
            },
        };
        assert_eq!(read_menu_entry(entry, "llama_cli_path = x\n"), expected, "{:?}", entry);
    }
}

#[test]
fn empty_menu_entry_asks_for_the_default_mode() {
    assert_eq!(read_menu_entry("\n", "default_mode = 3\n"), MenuAction::Launch(3));
    assert_eq!(read_menu_entry("  ", "default_mode = three\n"), MenuAction::NoDefault);
    assert_eq!(read_menu_entry("", ""), MenuAction::NoDefault);
    assert_eq!(read_menu_entry("2", "default_mode = 3\n"), MenuAction::Launch(2));
}

#[test]
fn selections_are_commands_or_numbers() {
    assert_eq!(read_selection("dir"), Selection::Directory);
    assert_eq!(read_selection(" directory\n"), Selection::Directory);
    assert_eq!(read_selection("make"), Selection::Manual);
    assert_eq!(read_selection("manual"), Selection::Manual);
    assert_eq!(read_selection("7"), Selection::Mode(7));
    assert_eq!(read_selection("0"), Selection::Mode(0));
    assert_eq!(read_selection("DIR"), Selection::Invalid);
    assert_eq!(read_selection("x"), Selection::Invalid);
    assert_eq!(read_selection(""), Selection::Invalid);
}

#[test]
fn modes_are_selected_by_number_from_one() {
    let modes = vec![mode("A"), mode("B")];
    assert_eq!(select_mode(&modes, 1).map(|m| m.name.as_str()), Some("A"));
    assert_eq!(select_mode(&modes, 2).map(|m| m.name.as_str()), Some("B"));
    assert!(select_mode(&modes, 0).is_none());
    assert!(select_mode(&modes, 3).is_none());
    assert!(select_mode(&modes, usize::MAX).is_none());
    assert!(select_mode(&Vec::new(), 1).is_none());
}

#[test]
fn picked_index_counts_from_one() {
    assert_eq!(pick_index("1", 3), Ok(0));
    assert_eq!(pick_index(" 3\n", 3), Ok(2));
    assert_eq!(pick_index("0", 3), Err(PickError::Zero));
    assert_eq!(pick_index("4", 3), Err(PickError::OutOfRange));
    assert_eq!(pick_index("1", 0), Err(PickError::OutOfRange));
    assert_eq!(pick_index("x", 3), Err(PickError::NotANumber));
    assert_eq!(pick_index("", 3), Err(PickError::NotANumber));
    assert_eq!(pick_index("-1", 3), Err(PickError::NotANumber));
}

#[test]
fn menu_lines_are_numbered_from_one() {
    assert_eq!(
        mode_menu_lines(&vec![mode("A"), mode("B")]),
        vec!["1. A - about A", "2. B - about B"]
    );
    assert!(mode_menu_lines(&Vec::new()).is_empty());
}

#[test]
fn default_thread_count_is_one_less_than_the_processors() {
    assert_eq!(get_system_cpu_count(Some(12)), 11);
    assert_eq!(get_system_cpu_count(Some(2)), 1);
    assert_eq!(get_system_cpu_count(Some(1)), 1);
    assert_eq!(get_system_cpu_count(Some(0)), 1);
    assert_eq!(get_system_cpu_count(None), 3);
    assert_eq!(get_system_cpu_count(Some(usize::MAX)), i32::MAX);
}

#[test]
fn thread_count_bounds() {
    assert_eq!(validate_thread_count(0, 7), 1);
    assert_eq!(validate_thread_count(-3, 7), 1);
    assert_eq!(validate_thread_count(1, 7), 1);
    assert_eq!(validate_thread_count(8, 7), 8);
    assert_eq!(validate_thread_count(9, 7), 8);
    assert_eq!(validate_thread_count(i32::MAX, i32::MAX), i32::MAX);
    assert_eq!(validate_thread_count(5, -3), -2);
}

#[test]
fn default_parameters_are_those_of_the_table() {
    let p = LlamaCppParameters::new(9);
    assert_eq!(p.temperature_value, "0.8");
    assert_eq!(p.top_k_sampling, 40);
    assert_eq!(p.top_p_sampling, "0.9");
    assert_eq!(p.context_size, 2000);
    assert_eq!(p.thread_count, 9);
    assert_eq!(p.gpu_layers, 0);
    assert!(p.interactive_first);
}

#[test]
fn parameters_are_read_from_parts() {
    let parts: Vec<String> = ["/m", "p.txt", "temp=0.1", "top_k=abc", "ctx_size=512", "n", "d"]
        .iter()
        .map(|s| s.to_string())
        .collect();
    let p = parse_parameters_from_parts(&parts, 4);
    let mut expected = LlamaCppParameters::new(4);
    expected.temperature_value = "0.1".to_string();
    expected.context_size = 512;
    assert_eq!(p, expected);
    assert_eq!(parse_parameters_from_parts(&Vec::new(), 4), LlamaCppParameters::new(4));
    let parts: Vec<String> =
        ["/m.gguf", "/p.txt", "threads=64"].iter().map(|s| s.to_string()).collect();
    for default_threads in [1, 3, 7, 63, 64, 200] {
        assert_eq!(parse_parameters_from_parts(&parts, default_threads).thread_count, 64);
    }
}

#[test]
fn entered_parameters_are_checked() {
    let mut p = LlamaCppParameters::new(4);
    assert!(p.set_from_entry(ParameterField::Temperature, " 0.2\n"));
    assert!(p.set_from_entry(ParameterField::TopK, "12\n"));
    assert!(p.set_from_entry(ParameterField::TopP, "\n"));
    assert!(p.set_from_entry(ParameterField::ContextSize, "8192"));
    assert!(p.set_from_entry(ParameterField::ThreadCount, "64"));
    assert!(p.set_from_entry(ParameterField::GpuLayers, "-1"));
    assert_eq!(p.temperature_value, "0.2");
    assert_eq!(p.top_k_sampling, 12);
    assert_eq!(p.top_p_sampling, "0.9");
    assert_eq!(p.context_size, 8192);
    assert_eq!(p.thread_count, 64);
    assert_eq!(p.gpu_layers, -1);
    let before = p.clone();
    assert!(!p.set_from_entry(ParameterField::Temperature, "warm"));
    assert!(!p.set_from_entry(ParameterField::TopK, "1.5"));
    assert!(!p.set_from_entry(ParameterField::TopP, "0,9"));
    assert!(!p.set_from_entry(ParameterField::ContextSize, "4k"));
    assert!(!p.set_from_entry(ParameterField::ThreadCount, "many"));
    assert!(!p.set_from_entry(ParameterField::GpuLayers, "99999999999"));
    assert_eq!(p, before);
}

#[test]
fn wizard_needs_one_model_directory() {
    let mut w = SetupWizardResult::new();
    assert!(w.logging_enabled);
    assert_eq!(w.model_directory_entry("done"), DirectoryStep::NeedOne);
    assert!(w.gguf_model_directories.is_empty());
    assert_eq!(w.model_directory_entry("/models"), DirectoryStep::Added);
    assert_eq!(w.model_directory_entry("/more"), DirectoryStep::Added);
    assert_eq!(w.model_directory_entry("DONE"), DirectoryStep::Finished);
    assert_eq!(w.gguf_model_directories, vec!["/models", "/more"]);
}
