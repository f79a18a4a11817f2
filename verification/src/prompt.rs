//! The prompt that carries a digest to a text-generation service.

use vstd::prelude::*;

use crate::compress::{
    compress_log_for_ai, compressed, default_config, elision_marker, rendered, CompressionConfig,
    LogDigest,
};

verus! {

/// The instruction that is used where the caller gives none.
pub open spec fn default_instruction() -> Seq<char> {
    "あなたはデータサイエンティストです。以下の最適化計算ログを解析し、Markdown形式のレポートを作成してください。\n# 制約\n- 挨拶や前置きは不可。即座に見出し(#)から開始すること。\n- ログの引用は不可。"@
}

/// The instruction that a preview of the prompt is made with.
pub open spec fn preview_instruction() -> Seq<char> {
    "あなたはデータサイエンティストです。(以下略...)"@
}

/// The sentence on what the report is to dwell on; every prompt has it.
pub open spec fn default_focus() -> Seq<char> {
    "特に、結果サマリと計算プロセスの健全性について記述すること。"@
}

/// The heading under which the digest stands in the prompt.
pub open spec fn log_heading() -> Seq<char> {
    "\n[LOG]\n"@
}

/// The instruction of a prompt: the caller's, or the default where the
/// caller's is empty.
pub open spec fn base_instruction(system_instruction: Seq<char>) -> Seq<char> {
    if system_instruction.len() == 0 {
        default_instruction()
    } else {
        system_instruction
    }
}

/// The focus of a prompt: the default sentence and, where the caller names
/// a focus that is not empty, a directive that quotes it as it is.
pub open spec fn focus_directive(focus: Seq<char>) -> Seq<char> {
    if focus.len() == 0 {
        default_focus()
    } else {
        default_focus() + "追加指示:「"@ + focus + "」について深く考察すること。"@
    }
}

/// The prompt: instruction, focus and the digest's text under its heading.
pub open spec fn prompt_text(
    system_instruction: Seq<char>,
    focus: Seq<char>,
    digest_text: Seq<char>,
) -> Seq<char> {
    base_instruction(system_instruction) + "\n"@ + focus_directive(focus) + log_heading()
        + digest_text
}

/// Puts the instruction, the focus and the digest together. An empty
/// instruction gives way to the default one, and only a focus that is not
/// empty adds its directive; an instruction or a focus of white space is
/// taken as it is. The digest's text is not cut again.
pub fn assemble(system_instruction: &str, focus_text: &str, digest: &LogDigest) -> (prompt: String)
    ensures
        prompt@ == prompt_text(system_instruction@, focus_text@, rendered(digest@)),
{
    let mut prompt = if system_instruction.is_empty() {
        String::from_str(
            "あなたはデータサイエンティストです。以下の最適化計算ログを解析し、Markdown形式のレポートを作成してください。\n# 制約\n- 挨拶や前置きは不可。即座に見出し(#)から開始すること。\n- ログの引用は不可。",
        )
    } else {
        String::from_str(system_instruction)
    };
    prompt.append("\n");
    let mut focus = String::from_str("特に、結果サマリと計算プロセスの健全性について記述すること。");
    if !focus_text.is_empty() {
        focus.append("追加指示:「");
        focus.append(focus_text);
        focus.append("」について深く考察すること。");
    }
    prompt.append(focus.as_str());
    prompt.append("\n[LOG]\n");
    prompt.append(digest.render().as_str());
    prompt
}

/// Builds the prompt for the captured output of a run: the output is
/// compressed under the default configuration and put under the
/// instruction and the focus.
pub fn build_prompt_string(log: &str, focus_point: &str, system_instruction: &str) -> (prompt:
    String)
    ensures
        prompt@ == prompt_text(
            system_instruction@,
            focus_point@,
            rendered(compressed(log@, default_config())),
        ),
{
    let config = CompressionConfig::default();
    let digest = compress_log_for_ai(log, &config);
    assemble(system_instruction, focus_point, &digest)
}

/// The prompt as a preview shows it: built with the preview instruction.
pub fn debug_prompt(log: &str, focus_point: &str) -> (prompt: String)
    ensures
        prompt@ == prompt_text(
            preview_instruction(),
            focus_point@,
            rendered(compressed(log@, default_config())),
        ),
{
    build_prompt_string(log, focus_point, "あなたはデータサイエンティストです。(以下略...)")
}

/// A prompt is as long as its fixed parts and its digest together: the
/// digest adds at most the budget and, where it was cut, the elision marker.
pub proof fn lemma_prompt_length(
    system_instruction: Seq<char>,
    focus: Seq<char>,
    raw: Seq<char>,
    config: CompressionConfig,
)
    ensures
        prompt_text(system_instruction, focus, rendered(compressed(raw, config))).len()
            <= base_instruction(system_instruction).len() + "\n"@.len() + focus_directive(
            focus,
        ).len() + log_heading().len() + elision_marker().len() + config.max_output_chars,
{
}

} // verus!
