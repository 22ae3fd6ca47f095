use snapshot_manifest::arguments::{
    classify_arguments, classify_token, copy_line_for, final_arguments, staged_copies, tokenize,
    truncation_for, ArgumentToken, ManifestError, PathProbe, StagedFile, TruncationSpec,
    DEFAULT_INPUT_FILE_SIZE, INPUT_FILE_PATH, PLACEHOLDER_MARKER,
};

fn missing() -> PathProbe {
    PathProbe { resolved: None, exists: false }
}

fn absent(path: &str) -> PathProbe {
    PathProbe { resolved: Some(path.to_string()), exists: false }
}

fn present(path: &str) -> PathProbe {
    PathProbe { resolved: Some(path.to_string()), exists: true }
}

fn literal(text: &str) -> ArgumentToken {
    ArgumentToken::Literal(text.to_string())
}

fn staged(source: &str, base_name: &str) -> ArgumentToken {
    ArgumentToken::StagedFileReference(StagedFile {
        source: source.to_string(),
        base_name: base_name.to_string(),
    })
}

fn texts(parts: &[&str]) -> Vec<String> {
    parts.iter().map(|part| part.to_string()).collect()
}

#[test]
fn constants_have_their_fixed_values() {
    assert_eq!(PLACEHOLDER_MARKER, "@@");
    assert_eq!(INPUT_FILE_PATH, "/opt/truncated_input_file");
    assert_eq!(DEFAULT_INPUT_FILE_SIZE, 32 * 1024);
}

#[test]
fn no_arguments_give_no_tokens() {
    assert_eq!(tokenize(&None), Vec::<String>::new());
}

#[test]
fn arguments_are_cut_at_single_spaces() {
    assert_eq!(tokenize(&Some("a @@ b".to_string())), texts(&["a", "@@", "b"]));
    assert_eq!(tokenize(&Some("a  b".to_string())), texts(&["a", "", "b"]));
    assert_eq!(tokenize(&Some("a\tb".to_string())), texts(&["a\tb"]));
}

#[test]
fn empty_arguments_give_one_empty_token() {
    assert_eq!(tokenize(&Some(String::new())), texts(&[""]));
}

#[test]
fn classification_preserves_token_order() {
    let tokens = tokenize(&Some("a @@ b".to_string()));
    let probes = vec![absent("/work/a"), absent("/work/@@"), absent("/work/b")];
    assert_eq!(
        classify_arguments(&tokens, &probes),
        Ok(vec![literal("a"), ArgumentToken::PlaceholderInputFile, literal("b")])
    );
}

#[test]
fn existing_file_is_staged_under_its_base_name() {
    assert_eq!(
        classify_token("/tmp/cfg.json", &present("/tmp/cfg.json")),
        Ok(staged("/tmp/cfg.json", "cfg.json"))
    );
    assert_eq!(
        classify_token("cfg.json", &present("/work/dir/cfg.json")),
        Ok(staged("/work/dir/cfg.json", "cfg.json"))
    );
}

#[test]
fn non_existent_path_is_a_literal_unchanged() {
    assert_eq!(classify_token("/tmp/none.json", &absent("/tmp/none.json")), Ok(literal("/tmp/none.json")));
    assert_eq!(classify_token("-x", &absent("/work/-x")), Ok(literal("-x")));
}

#[test]
fn unresolved_token_falls_through_to_marker_and_literal() {
    assert_eq!(classify_token("", &missing()), Ok(literal("")));
    assert_eq!(classify_token("@@", &missing()), Ok(ArgumentToken::PlaceholderInputFile));
    let odd = PathProbe { resolved: None, exists: true };
    assert_eq!(classify_token("name", &odd), Ok(literal("name")));
    assert_eq!(classify_token("@@", &odd), Ok(ArgumentToken::PlaceholderInputFile));
}

#[test]
fn marker_must_match_exactly() {
    assert_eq!(classify_token("@@", &absent("/work/@@")), Ok(ArgumentToken::PlaceholderInputFile));
    assert_eq!(classify_token("@@@", &absent("/work/@@@")), Ok(literal("@@@")));
    assert_eq!(classify_token("@", &absent("/work/@")), Ok(literal("@")));
    assert_eq!(classify_token("x@@", &absent("/work/x@@")), Ok(literal("x@@")));
}

#[test]
fn existing_file_named_like_the_marker_is_staged() {
    assert_eq!(classify_token("@@", &present("/work/@@")), Ok(staged("/work/@@", "@@")));
}

#[test]
fn device_paths_are_never_staged() {
    assert_eq!(classify_token("/dev/null", &present("/dev/null")), Ok(literal("/dev/null")));
    assert_eq!(classify_token("/dev", &present("/dev")), Ok(literal("/dev")));
    assert_eq!(classify_token("/device", &present("/device")), Ok(literal("/device")));
}

#[test]
fn device_prefix_is_tested_on_the_token_as_written() {
    assert_eq!(classify_token("null", &present("/dev/null")), Ok(staged("/dev/null", "null")));
}

#[test]
fn existing_path_without_base_name_is_a_fault() {
    assert_eq!(classify_token("/", &present("/")), Err(ManifestError::UnnamedStagedFile));
    assert_eq!(classify_token("..", &present("/work/..")), Err(ManifestError::UnnamedStagedFile));
    let tokens = texts(&["a", "/", "b"]);
    let probes = vec![absent("/work/a"), present("/"), absent("/work/b")];
    assert_eq!(classify_arguments(&tokens, &probes), Err(ManifestError::UnnamedStagedFile));
}

#[test]
fn probes_must_match_the_tokens_in_number() {
    let tokens = texts(&["a", "b"]);
    assert_eq!(
        classify_arguments(&tokens, &vec![missing()]),
        Err(ManifestError::ProbeCountMismatch)
    );
    assert_eq!(
        classify_arguments(&tokens, &vec![missing(), missing(), missing()]),
        Err(ManifestError::ProbeCountMismatch)
    );
    assert_eq!(classify_arguments(&Vec::new(), &Vec::new()), Ok(Vec::new()));
}

#[test]
fn staged_file_is_made_from_its_source() {
    assert_eq!(
        StagedFile::new("/tmp/dir/cfg.json"),
        Some(StagedFile { source: "/tmp/dir/cfg.json".to_string(), base_name: "cfg.json".to_string() })
    );
    assert_eq!(StagedFile::new("/"), None);
}

#[test]
fn truncation_follows_the_placeholder() {
    let with = vec![literal("a"), ArgumentToken::PlaceholderInputFile];
    let without = vec![literal("a"), staged("/tmp/f", "f"), literal("@@x")];
    assert_eq!(
        truncation_for(&with, None),
        Some(TruncationSpec { size: 32768, target: "/opt/truncated_input_file".to_string() })
    );
    assert_eq!(
        truncation_for(&with, Some(4096)),
        Some(TruncationSpec { size: 4096, target: "/opt/truncated_input_file".to_string() })
    );
    assert_eq!(truncation_for(&without, None), None);
    assert_eq!(truncation_for(&without, Some(4096)), None);
    assert_eq!(truncation_for(&Vec::new(), Some(1)), None);
}

#[test]
fn arguments_are_rewritten_in_place() {
    let tokens = vec![
        literal("-x"),
        staged("/tmp/cfg.json", "cfg.json"),
        ArgumentToken::PlaceholderInputFile,
        literal(""),
    ];
    assert_eq!(
        final_arguments(&tokens),
        texts(&["-x", "/opt/cfg.json", "/opt/truncated_input_file", ""])
    );
    assert_eq!(literal("plain").rewritten(), "plain");
    assert_eq!(ArgumentToken::PlaceholderInputFile.rewritten(), "/opt/truncated_input_file");
    assert_eq!(staged("/a/b", "b").rewritten(), "/opt/b");
}

#[test]
fn copy_instruction_quotes_the_source() {
    let file = StagedFile { source: "/tmp/cfg.json".to_string(), base_name: "cfg.json".to_string() };
    assert_eq!(file.copy_instruction(), "COPY \"/tmp/cfg.json\" /opt");
    assert_eq!(copy_line_for("\"/x\""), "COPY \"/x\" /opt");
    assert_eq!(copy_line_for(""), "COPY  /opt");
}

#[test]
fn copy_instruction_escapes_what_cannot_stand_in_quotes() {
    let file = StagedFile { source: "/tmp/a\"b\\c".to_string(), base_name: "a\"b\\c".to_string() };
    assert_eq!(file.copy_instruction(), "COPY \"/tmp/a\\\"b\\\\c\" /opt");
    let spaced = StagedFile { source: "/tmp/a\tb".to_string(), base_name: "a\tb".to_string() };
    assert_eq!(spaced.copy_instruction(), "COPY \"/tmp/a\\tb\" /opt");
}

#[test]
fn copy_instructions_follow_the_order_of_the_tokens() {
    let tokens = vec![
        staged("/tmp/one", "one"),
        literal("-x"),
        ArgumentToken::PlaceholderInputFile,
        staged("/tmp/two", "two"),
    ];
    assert_eq!(
        staged_copies(&tokens),
        texts(&["COPY \"/tmp/one\" /opt", "COPY \"/tmp/two\" /opt"])
    );
    assert_eq!(staged_copies(&vec![literal("a")]), Vec::<String>::new());
}
