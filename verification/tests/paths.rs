use query_gguf::files::{
    child_prefix, combined_prompt, file_section, is_likely_text_file, tree_line,
};
use query_gguf::models::model_directories;
use query_gguf::path::{
    get_app_base_dir, get_config_path, get_prompts_dir, normalize_path, PathError,
};
use std::path::{Path, PathBuf};

#[test]
fn configuration_paths_are_below_home() {
    assert_eq!(get_app_base_dir("/home/u"), "/home/u/query_gguf");
    assert_eq!(get_config_path("/home/u"), "/home/u/query_gguf/query_gguf_config.toml");
    assert_eq!(get_prompts_dir("/home/u"), "/home/u/query_gguf/prompts");
    assert_eq!(get_config_path("/home/u/"), "/home/u/query_gguf/query_gguf_config.toml");
    assert_eq!(get_config_path(""), "query_gguf/query_gguf_config.toml");
}

#[test]
fn configuration_paths_are_those_of_path_join() {
    for home in ["/home/u", "/home/u/", "/", "", "rel", "rel/"] {
        let base = PathBuf::from(home).join("query_gguf");
        assert_eq!(get_app_base_dir(home), base.to_str().unwrap());
        assert_eq!(
            get_config_path(home),
            base.join("query_gguf_config.toml").to_str().unwrap()
        );
        assert_eq!(get_prompts_dir(home), base.join("prompts").to_str().unwrap());
    }
}

#[test]
fn absolute_path_is_kept() {
    assert_eq!(normalize_path("/a/b", None, None), Ok("/a/b".to_string()));
    assert_eq!(normalize_path("  /a/b \n", Some("/h"), Some("/c")), Ok("/a/b".to_string()));
}

#[test]
fn tilde_stands_for_home() {
    assert_eq!(normalize_path("~/models", Some("/home/u"), None), Ok("/home/u/models".to_string()));
    assert_eq!(normalize_path("~", Some("/home/u"), None), Ok("/home/u".to_string()));
    assert_eq!(normalize_path("~x", Some("/home/u"), None), Ok("/home/ux".to_string()));
    assert_eq!(normalize_path("~/models", None, Some("/c")), Err(PathError::NoHomeDirectory));
    assert_eq!(
        normalize_path("~/m", Some("rel"), Some("/cwd")),
        Ok("/cwd/rel/m".to_string())
    );
}

#[test]
fn relative_path_goes_below_the_current_directory() {
    assert_eq!(normalize_path("models", None, Some("/cwd")), Ok("/cwd/models".to_string()));
    assert_eq!(normalize_path("models", None, Some("/cwd/")), Ok("/cwd/models".to_string()));
    assert_eq!(normalize_path("", None, Some("/cwd")), Ok("/cwd/".to_string()));
    assert_eq!(normalize_path("models", Some("/h"), None), Err(PathError::NoCurrentDirectory));
    assert_eq!(normalize_path("~/m", Some("rel"), None), Err(PathError::NoCurrentDirectory));
}

#[test]
fn text_files_are_known_by_their_extension() {
    for name in [
        "a.txt", "README.md", "main.rs", "x.py", "x.js", "x.json", "x.toml", "x.yaml", "x.yml",
        "x.css", "x.html", "x.htm", "x.xml", "x.csv", "x.log", "x.sh", "x.bash", "x.c", "x.cpp",
        "x.h", "x.hpp", "x.java", "x.go", "x.rb", "x.pl", "x.php",
    ] {
        assert!(is_likely_text_file(name), "{:?}", name);
    }
    for name in ["a.gguf", "a.bin", "a", "txt", ".txt", "a.txt.gz", "a.tx", "a.txtx", "a.", ""] {
        assert!(!is_likely_text_file(name), "{:?}", name);
    }
}

#[test]
fn extension_is_read_without_regard_to_case() {
    assert!(is_likely_text_file("/dir/NOTES.TXT"));
    assert!(is_likely_text_file("/dir/Main.Rs"));
    assert!(!is_likely_text_file("/dir.txt/model"));
}

fn by_std(path: &str) -> bool {
    let known = [
        "txt", "md", "rs", "py", "js", "json", "toml", "yaml", "yml", "css", "html", "htm", "xml",
        "csv", "log", "sh", "bash", "c", "cpp", "h", "hpp", "java", "go", "rb", "pl", "php",
    ];
    Path::new(path)
        .extension()
        .and_then(|ext| ext.to_str())
        .map(|ext| known.contains(&ext.to_lowercase().as_str()))
        .unwrap_or(false)
}

#[test]
fn text_file_check_agrees_with_std_paths() {
    let paths = [
        "", ".", "..", "/", "//", "a.txt", "a.txt/", "a.txt//", "a.txt/.", "a.txt/./", "a.txt/..",
        "./a.txt", "../a.txt", "/x/y.md", "/x/y.md/z", "/x.d/y", ".md", "x/.md", "a..md", "a.md.",
        "a.MD", "a.Md", "a b.txt", "a.txt ", "a. txt", "...", "..txt", "/.", "/..", "a/.b/.",
        "x.c", "x.C", "c", ".c.c", "dir/", "dir/.", "./", "./.", "K.\u{212A}", "a.t\u{130}t",
        "a.js\u{0}", "\u{e9}.py", "a.p\u{fd}", "x/y/z.tar.gz", "x/y/z.gz.log", "a.h/", "/a.h/./.",
    ];
    for path in paths {
        assert_eq!(is_likely_text_file(path), by_std(path), "{:?}", path);
    }
}

#[test]
fn tree_lines_are_exact() {
    assert_eq!(tree_line("", false, "src"), "├── src\n");
    assert_eq!(tree_line("", true, "README.md"), "└── README.md\n");
    assert_eq!(tree_line("│   ", true, "main.rs"), "│   └── main.rs\n");
    assert_eq!(child_prefix("", false), "│   ");
    assert_eq!(child_prefix("", true), "    ");
    assert_eq!(child_prefix("│   ", true), "│       ");
}

#[test]
fn file_section_and_combined_prompt_are_exact() {
    assert_eq!(file_section("a.txt", "hello"), "\n=== a.txt ===\nhello\n");
    assert_eq!(
        combined_prompt("You are helpful.", "└── a.txt\n", "\n=== a.txt ===\nhello\n"),
        "You are helpful.\n\nDirectory Structure:\n└── a.txt\n\n\nFile Contents:\n=== a.txt ===\nhello\n\n"
    );
}

#[test]
fn model_directories_are_read_in_line_order() {
    let text = [
        "gguf_model_directory_2 = \"/models/two\"",
        "# gguf_model_directory_9 = \"/commented\"",
        "gguf_model_directory_1 = \"~/models\"",
        "  gguf_model_directory_3 = \"/indented\"",
        "gguf_model_directory_4 = relative/dir",
        "gguf_model_directory_5",
        "gguf_model_directory_6 = \"/a=b\"",
        "gguf_model_directory_7 = \" /spaced \"",
        "",
    ]
    .join("\n");
    assert_eq!(
        model_directories(&text, "/home/u"),
        vec![
            "/models/two",
            "/home/u/models",
            "/home/u/relative/dir",
            "/a",
            "/home/u/ /spaced ",
        ]
    );
    assert!(model_directories("", "/home/u").is_empty());
}
