use regex::Regex;
use tasklog::reply::{first_fenced_block, plans_from_reply, ReplyError};

// The first block between two fences as a regular expression finds it.
fn block_by_pattern(text: &str) -> Option<String> {
    let pattern = Regex::new(r"(?s)```[\s]*(.*?)[\s]*```").unwrap();
    let first = pattern
        .captures_iter(text)
        .filter_map(|found| found.get(1).map(|m| m.as_str().trim().to_string()))
        .next();
    first
}

#[test]
fn reply_with_a_json_fence() {
    let reply = "Here is the plan:\n```json\n[\"read\", \"write\", \"revise\"]\n```\nGood luck!";
    assert_eq!(
        plans_from_reply(reply),
        Ok(vec!["read".to_string(), "write".to_string(), "revise".to_string()])
    );
}

#[test]
fn reply_with_a_plain_fence() {
    assert_eq!(plans_from_reply("```[\"a\"]```"), Ok(vec!["a".to_string()]));
    assert_eq!(plans_from_reply("``` \n [] \t```"), Ok(vec![]));
    assert_eq!(
        plans_from_reply("x```\n[\"é\", \"日本\"]\n```y"),
        Ok(vec!["é".to_string(), "日本".to_string()])
    );
}

#[test]
fn reply_takes_the_first_block_only() {
    let reply = "```json\n[\"one\"]\n```\nand\n```json\n[\"two\"]\n```";
    assert_eq!(plans_from_reply(reply), Ok(vec!["one".to_string()]));
}

#[test]
fn reply_without_a_block() {
    for reply in ["", "no fences", "[\"a\"]", "``` only one fence", "``json [] ``", "````"] {
        assert_eq!(plans_from_reply(reply), Err(ReplyError::NoContent), "{:?}", reply);
    }
}

#[test]
fn reply_whose_block_is_no_list_of_texts() {
    for reply in [
        "``````",
        "```json\n```",
        "```json\n{\"a\": 1}\n```",
        "```json\n[1, 2]\n```",
        "```json\n[\"a\",]\n```",
        "```\nplain words\n```",
    ] {
        assert_eq!(plans_from_reply(reply), Err(ReplyError::NotAList), "{:?}", reply);
    }
}

#[test]
fn fenced_block_is_trimmed() {
    assert_eq!(first_fenced_block("``` a b ```"), Some("a b".to_string()));
    assert_eq!(first_fenced_block("```\n\t a\n b \r\n```"), Some("a\n b".to_string()));
    assert_eq!(first_fenced_block("```\u{3000}x\u{a0}\u{2003}```"), Some("x".to_string()));
    assert_eq!(first_fenced_block("```   ```"), Some(String::new()));
    assert_eq!(first_fenced_block("``````"), Some(String::new()));
    assert_eq!(first_fenced_block("```json x```"), Some("json x".to_string()));
    assert_eq!(first_fenced_block("```` x ```"), Some("` x".to_string()));
    assert_eq!(first_fenced_block("a```b"), None);
    assert_eq!(first_fenced_block("`````"), None);
    assert_eq!(first_fenced_block(""), None);
}

#[test]
fn fenced_block_agrees_with_the_pattern() {
    let texts = [
        "",
        "```",
        "``````",
        "```````",
        "`````````",
        "``` ```",
        "```a```",
        "``` a ``` b ``` c ```",
        "x ``` y",
        "``` \n\n text \n\n ``` tail ```",
        "pre```\u{2028}a\u{85}b\u{2029}```post",
        "``` ` `` ` ```",
        "```a``b```",
        "``` a `` ``` b",
        "`` ``` x ``` ``",
        "```\u{200b}zero width\u{200b}```",
        "```\u{feff}bom\u{feff}```",
        "日本```語\u{3000}```",
        "```\u{1680}ogham\u{205f}```",
        "```\u{180e}mongolian\u{180e}```",
        "```\u{1c}\u{1d}\u{1e}\u{1f}x```",
    ];
    for text in texts {
        assert_eq!(first_fenced_block(text), block_by_pattern(text), "{:?}", text);
    }
}
