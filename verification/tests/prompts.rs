use solver_log::compress::{compress_log_for_ai, CompressionConfig, LogDigest};
use solver_log::prompt::{assemble, build_prompt_string, debug_prompt};

const DEFAULT_INSTRUCTION: &str = "あなたはデータサイエンティストです。以下の最適化計算ログを解析し、Markdown形式のレポートを作成してください。\n# 制約\n- 挨拶や前置きは不可。即座に見出し(#)から開始すること。\n- ログの引用は不可。";
const DEFAULT_FOCUS: &str = "特に、結果サマリと計算プロセスの健全性について記述すること。";

fn digest(text: &str, truncated: bool) -> LogDigest {
    LogDigest { text: text.to_string(), truncated }
}

#[test]
fn prompt_has_instruction_focus_and_log() {
    let prompt = assemble("Be brief.", "", &digest("the log", false));
    assert_eq!(prompt, format!("Be brief.\n{}\n[LOG]\nthe log", DEFAULT_FOCUS));
}

#[test]
fn empty_instruction_gives_the_default() {
    let prompt = assemble("", "", &digest("x", false));
    assert_eq!(prompt, format!("{}\n{}\n[LOG]\nx", DEFAULT_INSTRUCTION, DEFAULT_FOCUS));
}

#[test]
fn instruction_of_white_space_is_kept() {
    for blank in [" ", "   ", "\n\t \u{3000}"] {
        let prompt = assemble(blank, "", &digest("x", false));
        assert_eq!(prompt, format!("{}\n{}\n[LOG]\nx", blank, DEFAULT_FOCUS));
    }
}

#[test]
fn instruction_is_taken_untrimmed() {
    let prompt = assemble("  padded  ", "", &digest("x", false));
    assert_eq!(prompt, format!("  padded  \n{}\n[LOG]\nx", DEFAULT_FOCUS));
}

#[test]
fn focus_of_white_space_is_quoted() {
    for focus in [" ", "\t\n"] {
        let prompt = assemble("sys", focus, &digest("x", false));
        assert_eq!(
            prompt,
            format!(
                "sys\n{}追加指示:「{}」について深く考察すること。\n[LOG]\nx",
                DEFAULT_FOCUS, focus
            )
        );
    }
}

#[test]
fn focus_is_quoted_as_it_is() {
    let prompt = assemble("sys", " gap at node 5 ", &digest("x", false));
    assert_eq!(
        prompt,
        format!("sys\n{}追加指示:「 gap at node 5 」について深く考察すること。\n[LOG]\nx", DEFAULT_FOCUS)
    );
}

#[test]
fn truncated_digest_comes_after_the_elision_marker() {
    let prompt = assemble("sys", "", &digest("tail", true));
    assert_eq!(prompt, format!("sys\n{}\n[LOG]\n... (snip) ...\ntail", DEFAULT_FOCUS));
}

#[test]
fn prompt_is_built_from_raw_output() {
    let log = "Iter   Obj\n1   10.0\nH   9.5\n---JSON_START---{\"x\": [1, 2, 3, 4, 5]}---JSON_END---";
    let prompt = build_prompt_string(log, "bounds", "sys");
    assert_eq!(
        prompt,
        format!(
            "sys\n{}追加指示:「bounds」について深く考察すること。\n[LOG]\nIter Obj\n1 10.0\nH 9.5\n[JSON_DATA]:{}",
            DEFAULT_FOCUS, "{\"x\":[1,2,3,\"... (truncated 2 items) ...\"]}"
        )
    );
}

#[test]
fn prompt_uses_the_default_configuration() {
    let log: String = (1..=40).map(|i| format!("{} row\n", i)).collect();
    let digest = compress_log_for_ai(&log, &CompressionConfig::default());
    assert_eq!(build_prompt_string(&log, "f", "s"), assemble("s", "f", &digest));
    assert_eq!(digest.text.lines().count(), 16);
}

#[test]
fn long_output_is_cut_to_the_last_15000_characters() {
    let log: String = (0..4000).map(|i| format!("H line {:05}\n", i)).collect();
    let prompt = build_prompt_string(&log, "", "sys");
    let head = format!("sys\n{}\n[LOG]\n... (snip) ...\n", DEFAULT_FOCUS);
    assert!(prompt.starts_with(&head));
    let tail = &prompt[head.len()..];
    assert_eq!(tail.chars().count(), 15000);
    assert!(tail.ends_with("H line 03999"));
}

#[test]
fn preview_uses_the_preview_instruction() {
    let prompt = debug_prompt("1 2\n", "");
    assert_eq!(
        prompt,
        format!("あなたはデータサイエンティストです。(以下略...)\n{}\n[LOG]\n1 2", DEFAULT_FOCUS)
    );
}
