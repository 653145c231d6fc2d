use hyfetch::neofetch_util::{
    ascii_foreground, ascii_from_distro, ascii_from_neofetch, backend_env, bash_needs_git_search,
    choose_bash, command_output_text, distro_name_command, distro_name_from_output,
    find_selection, invalid_selection_message, literal_input_choice, literal_input_prompt,
    neofetch_ascii_command, normalize_selection, pkg_path_additions, run, to_forward_slashes,
    BackendCommand, CommandArg, PathBase,
};
use hyfetch::ascii::ascii_size;
use hyfetch::neofetch_util::{git_bash_candidates, NEOFETCH_COLOR_PATTERNS, TEST_ASCII};
use hyfetch::theme::{macchina_theme_toml, MacchinaTheme};
use hyfetch::types::{Backend, Distro, NeofetchAsciiIndexedColor, RecoloredAsciiArt};

fn strings(v: &[&str]) -> Vec<String> {
    v.iter().map(|s| s.to_string()).collect()
}

fn arg_texts(c: &BackendCommand) -> Vec<String> {
    c.args
        .iter()
        .map(|a| match a {
            CommandArg::Text(s) => s.clone(),
            CommandArg::AsciiFile => "<ascii>".to_string(),
            CommandArg::ThemeName => "<theme>".to_string(),
        })
        .collect()
}

#[test]
fn prompt_lists_options_with_default_marked() {
    let opts = strings(&["horizontal", "vertical", "custom"]);
    assert_eq!(
        literal_input_prompt("Pick", &opts, "vertical", true),
        "Pick (horizontal|&l&nvertical&L&N|custom)"
    );
    assert_eq!(literal_input_prompt("Pick", &opts, "vertical", false), "Pick (default: vertical)");
}

#[test]
fn selection_prefers_exact_then_abbreviation() {
    let opts = strings(&["Neofetch", "fastfetch", "neo"]);
    assert_eq!(find_selection("neo", &opts), Some(2));
    assert_eq!(find_selection("neof", &opts), Some(0));
    assert_eq!(find_selection("f", &opts), Some(1));
    assert_eq!(find_selection("x", &opts), None);
    assert_eq!(find_selection("", &opts), None);
}

#[test]
fn answer_is_lowercased_and_empty_means_default() {
    assert_eq!(normalize_selection("FastFetch", "neofetch"), "fastfetch");
    assert_eq!(normalize_selection("", "Neofetch"), "Neofetch");
}

#[test]
fn one_round_of_choosing() {
    let opts = strings(&["light", "dark"]);
    assert_eq!(literal_input_choice("", &opts, "dark"), Ok(1));
    assert_eq!(literal_input_choice("LI", &opts, "dark"), Ok(0));
    assert_eq!(
        literal_input_choice("Blue", &opts, "dark"),
        Err("Invalid selection! blue is not one of light|dark".to_string())
    );
    assert_eq!(
        invalid_selection_message("x", &opts),
        "Invalid selection! x is not one of light|dark"
    );
}

fn art(lines: &[&str]) -> RecoloredAsciiArt {
    RecoloredAsciiArt { lines: strings(lines), w: 3, h: lines.len() as u8 }
}

#[test]
fn run_neofetch_escapes_backslashes() {
    let extra = strings(&["--off"]);
    let c = run(art(&["/\\", "\\/"]), Backend::Neofetch, Some(&extra));
    assert_eq!(c.backend, Backend::Neofetch);
    assert_eq!(c.ascii_file.as_deref(), Some("/\\\\\n\\\\/"));
    assert!(c.theme.is_none());
    assert_eq!(arg_texts(&c), strings(&["--ascii", "--source", "<ascii>", "--ascii_colors", "--off"]));
}

#[test]
fn run_fastfetch_and_macchina() {
    let c = run(art(&["a\\", "b"]), Backend::Fastfetch, None);
    assert_eq!(c.ascii_file.as_deref(), Some("a\\\nb"));
    assert_eq!(arg_texts(&c), strings(&["--file-raw", "<ascii>"]));
    let m = run(art(&["a", "b"]), Backend::Macchina, None);
    assert_eq!(m.ascii_file.as_deref(), Some("a\nb"));
    assert_eq!(m.theme, Some(MacchinaTheme::Display));
    assert_eq!(arg_texts(&m), strings(&["--theme", "<theme>"]));
}

#[test]
fn neofetch_escape_round_trips() {
    let lines = ["\\\\x\\", "y\\"];
    let c = run(art(&lines), Backend::Neofetch, None);
    let back = ascii_from_neofetch(c.ascii_file.as_deref().unwrap());
    assert_eq!(back.asc, lines.join("\n"));
    assert!(back.fg.is_empty());
}

#[test]
fn distro_name_commands() {
    let n = distro_name_command(Backend::Neofetch, true);
    assert_eq!(arg_texts(&n), strings(&["ascii_distro_name"]));
    assert!(n.ascii_file.is_none());
    let f = distro_name_command(Backend::Fastfetch, true);
    assert_eq!(arg_texts(&f), strings(&["--logo", "none", "-c", "none", "-s", "OS"]));
    let m = distro_name_command(Backend::Macchina, true);
    assert_eq!(m.ascii_file.as_deref(), Some("\t\n\t\n"));
    assert_eq!(m.theme, Some(MacchinaTheme::DistroQuery));
    assert_eq!(arg_texts(&m), strings(&["--show", "distribution", "--theme", "<theme>"]));
    let m = distro_name_command(Backend::Macchina, false);
    assert_eq!(arg_texts(&m), strings(&["--show", "operating-system", "--theme", "<theme>"]));
}

#[test]
fn distro_names_from_output() {
    assert_eq!(distro_name_from_output(Backend::Neofetch, "Arch"), "Arch");
    assert_eq!(distro_name_from_output(Backend::Fastfetch, "OS: Arch Linux x86_64"), "Arch Linux x86_64");
    assert_eq!(
        distro_name_from_output(Backend::Macchina, "\u{1b}[32mDistribution\u{1b}[0m - Arch Linux "),
        "Arch Linux"
    );
    assert_eq!(distro_name_from_output(Backend::Macchina, "  Ubuntu  "), "Ubuntu");
}

#[test]
fn command_output_is_decoded_and_trimmed() {
    assert_eq!(command_output_text(b"  Arch\n".to_vec()), Some("Arch".to_string()));
    assert_eq!(command_output_text(vec![0xff, 0x41]), None);
    assert_eq!(command_output_text("héllo\n".as_bytes().to_vec()), Some("héllo".to_string()));
}

#[test]
fn fastfetch_env() {
    assert_eq!(backend_env(Backend::Fastfetch), vec![("FFTS_IGNORE_PARENT".to_string(), "1".to_string())]);
    assert!(backend_env(Backend::Neofetch).is_empty());
    assert!(backend_env(Backend::Macchina).is_empty());
}

#[test]
fn foreground_colors() {
    let d = Distro { ascii_art: "art".to_string(), foreground: vec![2, 6, 1] };
    let fg: Vec<u8> = ascii_foreground(&d).iter().map(|c| c.index()).collect();
    assert_eq!(fg, vec![2, 6, 1]);
    let raw = ascii_from_distro(&d);
    assert_eq!(raw.asc, "art");
    assert_eq!(raw.fg.len(), 3);
}

#[test]
fn color_index_range() {
    assert!(NeofetchAsciiIndexedColor::new(0).is_none());
    assert!(NeofetchAsciiIndexedColor::new(7).is_none());
    assert_eq!(NeofetchAsciiIndexedColor::new(6).map(|c| c.index()), Some(6));
}

#[test]
fn neofetch_ascii_args() {
    let c = neofetch_ascii_command("Arch Linux");
    assert_eq!(arg_texts(&c), strings(&["print_ascii", "--ascii_distro", "Arch Linux"]));
    assert_eq!(ascii_from_neofetch("a\\\\b").asc, "a\\b");
}

#[test]
fn pkg_path() {
    let all = pkg_path_additions(true);
    assert_eq!(all.len(), 8);
    assert!(matches!(all[0].0, PathBase::InstallDir));
    assert_eq!(all[3].1, "fastfetch/usr/bin");
    match &all[4].0 {
        PathBase::Relative(b) => assert_eq!(b, "hyfetch"),
        PathBase::InstallDir => panic!("expected a relative base"),
    }
    assert_eq!(pkg_path_additions(false).len(), 4);
}

#[test]
fn bash_choice() {
    let p = Some("C:\\bash.exe".to_string());
    let g = Some("C:\\Git\\bin\\bash.exe".to_string());
    assert_eq!(choose_bash(p.clone(), false, false, g.clone()), p);
    assert_eq!(choose_bash(p.clone(), true, false, g.clone()), g);
    assert_eq!(choose_bash(p.clone(), false, true, None), p);
    assert_eq!(choose_bash(None, false, false, None), None);
    assert!(!bash_needs_git_search(&p, false, false));
    assert!(bash_needs_git_search(&p, true, false));
    assert_eq!(to_forward_slashes("C:\\a\\b"), "C:/a/b");
}

#[test]
fn macchina_themes() {
    let d = macchina_theme_toml(MacchinaTheme::Display, "/tmp/a.txt");
    assert_eq!(d, "hide_ascii = false\n\n[custom_ascii]\npath = \"/tmp/a.txt\"\n");
    let q = macchina_theme_toml(MacchinaTheme::DistroQuery, "/tmp/b.txt");
    assert!(q.starts_with("spacing = 0\npadding = 0\nhide_ascii = false\nseparator = \"\"\n"));
    assert!(q.contains("[custom_ascii]\npath = \"/tmp/b.txt\"\n"));
    assert!(q.contains("[keys]\nos = \"\"\ndistro = \"\"\n"));
}

#[test]
fn run_file_reads_back_as_the_art_lines() {
    let lines = ["  /\\", " /  \\", "", "/____\\\r", "end"];
    for backend in [Backend::Fastfetch, Backend::Macchina] {
        let c = run(art(&lines), backend, None);
        let file = c.ascii_file.unwrap();
        let back: Vec<&str> = file.lines().collect();
        assert_eq!(back.len(), lines.len());
        assert_eq!(back[0..3], lines[0..3]);
        assert_eq!(back[4], lines[4]);
    }
}

#[test]
fn git_bash_candidate_order() {
    let all = git_bash_candidates(5);
    let expected: Vec<(usize, String)> = vec![
        (0, "bin\\bash.exe".to_string()),
        (0, "usr\\bin\\bash.exe".to_string()),
        (1, "bin\\bash.exe".to_string()),
        (1, "usr\\bin\\bash.exe".to_string()),
        (2, "bin\\bash.exe".to_string()),
        (2, "usr\\bin\\bash.exe".to_string()),
    ];
    assert_eq!(all, expected);
    assert_eq!(git_bash_candidates(1), expected[0..2].to_vec());
    assert!(git_bash_candidates(0).is_empty());
}

#[test]
fn color_pattern_constant_and_sample_art() {
    assert_eq!(NEOFETCH_COLOR_PATTERNS, ["${c1}", "${c2}", "${c3}", "${c4}", "${c5}", "${c6}"]);
    for p in NEOFETCH_COLOR_PATTERNS {
        assert_eq!(ascii_size(p), Ok((0, 0)));
    }
    assert_eq!(ascii_size(TEST_ASCII), Ok((15, 13)));
}

#[test]
fn ascii_answers_are_lowercased_letter_by_letter() {
    assert_eq!(normalize_selection("AbC-12", "x"), "abc-12");
    let opts = strings(&["Light", "DARK"]);
    assert_eq!(find_selection("dark", &opts), Some(1));
    assert_eq!(literal_input_choice("LI", &opts, "dark"), Ok(0));
}
