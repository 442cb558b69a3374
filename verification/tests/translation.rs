use command_translator::translate::CommandTranslator;

fn strings(tokens: &[&str]) -> Vec<String> {
    tokens.iter().map(|t| t.to_string()).collect()
}

#[test]
fn test_install_translation() {
    let translator = CommandTranslator::new();
    let args = vec!["install".to_string(), "firefox".to_string()];
    let translated = translator.translate(&args);
    assert_eq!(translated, vec!["-S", "firefox"]);
}

#[test]
fn test_update_translation() {
    let translator = CommandTranslator::new();
    let args = vec!["update".to_string()];
    let translated = translator.translate(&args);
    assert_eq!(translated, vec!["-Syu"]);
}

#[test]
fn test_search_translation() {
    let translator = CommandTranslator::new();
    let args = vec!["search".to_string(), "firefox".to_string()];
    let translated = translator.translate(&args);
    assert_eq!(translated, vec!["-Ss", "firefox"]);
}

#[test]
fn test_backward_compatibility() {
    let translator = CommandTranslator::new();
    let args = vec!["-S".to_string(), "firefox".to_string()];
    let translated = translator.translate(&args);
    assert_eq!(translated, vec!["-S", "firefox"]);
}

#[test]
fn test_unknown_command() {
    let translator = CommandTranslator::new();
    let args = vec!["unknown".to_string(), "firefox".to_string()];
    let translated = translator.translate(&args);
    assert_eq!(translated, vec!["unknown", "firefox"]);
}

#[test]
fn empty_list_stays_empty() {
    let translator = CommandTranslator::new();
    let args: Vec<String> = Vec::new();
    assert_eq!(translator.translate(&args), Vec::<String>::new());
}

#[test]
fn flag_lists_pass_through() {
    let translator = CommandTranslator::new();
    for args in [
        strings(&["-S", "vim"]),
        strings(&["-Syu"]),
        strings(&["--needed", "install", "vim"]),
        strings(&["-"]),
        strings(&["-install", "x"]),
        strings(&["-Q", "INSTALL", "Update"]),
    ] {
        assert_eq!(translator.translate(&args), args);
    }
}

#[test]
fn every_command_expands_to_its_flags() {
    let translator = CommandTranslator::new();
    let table: [(&str, &[&str]); 24] = [
        ("install", &["-S"]),
        ("update", &["-Syu"]),
        ("upgrade", &["-Syu"]),
        ("search", &["-Ss"]),
        ("remove", &["-R"]),
        ("info", &["-Si"]),
        ("list", &["-Q"]),
        ("clean", &["-Sc"]),
        ("download", &["-Sw"]),
        ("reinstall", &["-S", "--needed"]),
        ("purge", &["-Rns"]),
        ("autoremove", &["-Rns"]),
        ("installed", &["-Q"]),
        ("orphans", &["-Qtd"]),
        ("foreign", &["-Qm"]),
        ("explicit", &["-Qe"]),
        ("files", &["-Ql"]),
        ("owns", &["-Qo"]),
        ("depends", &["-Qi"]),
        ("refresh", &["-Sy"]),
        ("mirror-update", &["-Syy"]),
        ("check", &["-Dk"]),
        ("verify", &["-Qk"]),
        ("cache-info", &["-Sc", "--print"]),
    ];
    for (command, flags) in table {
        let alone = translator.translate(&strings(&[command]));
        assert_eq!(alone, strings(flags));

        let with_operands = translator.translate(&strings(&[command, "Pkg-A", "/usr/Bin/b"]));
        let mut expected = strings(flags);
        expected.extend(strings(&["Pkg-A", "/usr/Bin/b"]));
        assert_eq!(with_operands, expected);
        assert_eq!(with_operands.len(), flags.len() + 3 - 1);
    }
}

#[test]
fn unknown_first_token_passes_through() {
    let translator = CommandTranslator::new();
    for args in [
        strings(&["frobnicate", "x"]),
        strings(&["x"]),
        strings(&[""]),
        strings(&["", "install"]),
        strings(&["instal", "vim"]),
        strings(&["install ", "vim"]),
        strings(&["vim", "install"]),
    ] {
        assert_eq!(translator.translate(&args), args);
    }
}

#[test]
fn case_of_the_command_is_ignored() {
    let translator = CommandTranslator::new();
    let upper = translator.translate(&strings(&["INSTALL", "x"]));
    let lower = translator.translate(&strings(&["install", "x"]));
    let mixed = translator.translate(&strings(&["InStAlL", "x"]));
    assert_eq!(upper, vec!["-S", "x"]);
    assert_eq!(lower, vec!["-S", "x"]);
    assert_eq!(mixed, vec!["-S", "x"]);
    assert_eq!(
        translator.translate(&strings(&["Mirror-Update"])),
        vec!["-Syy"]
    );
    assert_eq!(
        translator.translate(&strings(&["CACHE-INFO", "y"])),
        vec!["-Sc", "--print", "y"]
    );
}

#[test]
fn folding_is_not_ascii_only() {
    let translator = CommandTranslator::new();
    // The Kelvin sign folds to a plain `k`, the dotted capital I to an `i`
    // with a combining dot.
    assert_eq!(
        translator.translate(&strings(&["CHEC\u{212A}", "x"])),
        vec!["-Dk", "x"]
    );
    let dotted = strings(&["\u{130}NSTALL", "x"]);
    assert_eq!(translator.translate(&dotted), dotted);
    assert!(translator.is_english_command("chec\u{212A}"));
    assert!(!translator.is_english_command("\u{130}nfo"));
}

#[test]
fn multi_flag_expansion() {
    let translator = CommandTranslator::new();
    assert_eq!(
        translator.translate(&strings(&["reinstall", "vim"])),
        vec!["-S", "--needed", "vim"]
    );
}

#[test]
fn flags_are_a_fixed_point() {
    let translator = CommandTranslator::new();
    let once = translator.translate(&strings(&["-S", "vim"]));
    assert_eq!(once, vec!["-S", "vim"]);
    let twice = translator.translate(&once);
    assert_eq!(twice, vec!["-S", "vim"]);
}

#[test]
fn translating_twice_changes_nothing_more() {
    let translator = CommandTranslator::new();
    for args in [
        strings(&["install", "install"]),
        strings(&["reinstall", "vim"]),
        strings(&["frobnicate", "update"]),
        strings(&[]),
    ] {
        let once = translator.translate(&args);
        assert_eq!(translator.translate(&once), once);
    }
    assert_eq!(
        translator.translate(&strings(&["install", "install"])),
        vec!["-S", "install"]
    );
}

#[test]
fn unknown_command_passthrough() {
    let translator = CommandTranslator::new();
    assert_eq!(
        translator.translate(&strings(&["frobnicate", "x"])),
        vec!["frobnicate", "x"]
    );
}

#[test]
fn output_is_never_shorter_than_the_operands() {
    let translator = CommandTranslator::new();
    for args in [
        strings(&[]),
        strings(&["install"]),
        strings(&["cache-info"]),
        strings(&["cache-info", "a", "b"]),
        strings(&["-R", "a"]),
        strings(&["nothing", "a", "b", "c"]),
    ] {
        let out = translator.translate(&args);
        assert!(out.len() >= args.len().saturating_sub(1));
        assert!(out.len() >= args.len());
    }
    assert_eq!(translator.translate(&strings(&["cache-info", "a", "b"])).len(), 4);
}

#[test]
fn hyphen_inside_a_command_is_no_flag() {
    let translator = CommandTranslator::new();
    assert_eq!(
        translator.translate(&strings(&["mirror-update", "now"])),
        vec!["-Syy", "now"]
    );
    assert_eq!(
        translator.translate(&strings(&["cache-info"])),
        vec!["-Sc", "--print"]
    );
}

#[test]
fn operands_keep_their_case() {
    let translator = CommandTranslator::new();
    assert_eq!(
        translator.translate(&strings(&["Install", "Firefox-ESR", "INSTALL", "/Opt/X"])),
        vec!["-S", "Firefox-ESR", "INSTALL", "/Opt/X"]
    );
}

#[test]
fn input_is_left_as_it_was() {
    let translator = CommandTranslator::new();
    let args = strings(&["remove", "vim"]);
    let out = translator.translate(&args);
    assert_eq!(out, vec!["-R", "vim"]);
    assert_eq!(args, vec!["remove", "vim"]);
}
