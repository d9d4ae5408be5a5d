use idealx::age::{account_age_message, age_message, days_between};
use idealx::bot::{
    canned_reply, contains_id, history_limit, is_target_thread, may_auto_respond, parse_id_list,
    reply_messages,
};
use idealx::conversation::{
    build_conversation, prepare_conversation, ChannelMessage, MessageContent, RequestMessage, Role,
};
use idealx::language::{display_excerpt, translation_prompt, Language};
use idealx::summary::{summary_count, summary_prompt, transcript};

fn msg(author: &str, content: &str, from_bot: bool) -> ChannelMessage {
    ChannelMessage { author: author.to_string(), content: content.to_string(), from_bot }
}

fn text_of(m: &RequestMessage) -> (Role, String) {
    match &m.content {
        MessageContent::Text(t) => (m.role, t.clone()),
        MessageContent::Blocks(_) => panic!("block content"),
    }
}

#[test]
fn conversation_is_oldest_first_without_mentions() {
    // newest first, as the platform lists them
    let history = vec![
        msg("bot", "Sure, here you go.", true),
        msg("ann", "<@123456>   ", false),
        msg("ann", "<@123456> what is Rust?  ", false),
    ];
    let conv: Vec<(Role, String)> = build_conversation(&history).iter().map(text_of).collect();
    assert_eq!(
        conv,
        vec![
            (Role::User, "what is Rust?".to_string()),
            (Role::Assistant, "Sure, here you go.".to_string()),
        ]
    );
}

#[test]
fn forum_thread_gets_intro_and_empty_gets_greeting() {
    let history = vec![msg("ann", "hello", false)];
    let conv: Vec<(Role, String)> =
        prepare_conversation(&history, Some("Title".to_string()), Some("Desc".to_string()))
            .iter()
            .map(text_of)
            .collect();
    assert_eq!(
        conv,
        vec![
            (Role::User, "フォーラムタイトル: Title\nディスクリプション: Desc".to_string()),
            (Role::User, "hello".to_string()),
        ]
    );
    let conv: Vec<(Role, String)> =
        prepare_conversation(&history, Some("Title".to_string()), None).iter().map(text_of).collect();
    assert_eq!(conv, vec![(Role::User, "hello".to_string())]);
    let conv: Vec<(Role, String)> =
        prepare_conversation(&vec![msg("ann", "<@1>", false)], None, None).iter().map(text_of).collect();
    assert_eq!(conv, vec![(Role::User, "こんにちは".to_string())]);
}

#[test]
fn reply_mentions_author_on_first_piece() {
    let text = format!("{}. {}", "a".repeat(1500), "b".repeat(1000));
    let pieces = reply_messages(&text, Some("<@42>".to_string()));
    assert_eq!(pieces.len(), 2);
    assert_eq!(pieces[0], format!("<@42>\n{}.", "a".repeat(1500)));
    assert_eq!(pieces[1], format!(" {}", "b".repeat(1000)));
    let plain = reply_messages("short", None);
    assert_eq!(plain, vec!["short".to_string()]);
}

#[test]
fn auto_response_needs_target_server_and_forum() {
    let servers = vec![1u64, 2];
    let forums = vec![10u64];
    assert!(may_auto_respond(&servers, &forums, Some(2)));
    assert!(!may_auto_respond(&servers, &forums, Some(3)));
    assert!(!may_auto_respond(&servers, &forums, None));
    assert!(!may_auto_respond(&vec![], &forums, Some(1)));
    assert!(!may_auto_respond(&servers, &vec![], Some(1)));
    assert!(is_target_thread(&forums, true, Some(10)));
    assert!(!is_target_thread(&forums, false, Some(10)));
    assert!(!is_target_thread(&forums, true, Some(11)));
    assert!(!is_target_thread(&forums, true, None));
    assert!(contains_id(&servers, 1));
    assert!(!contains_id(&vec![], 1));
}

#[test]
fn history_limits() {
    assert_eq!(history_limit(true), 100);
    assert_eq!(history_limit(false), 5);
}

#[test]
fn canned_replies() {
    assert_eq!(canned_reply(&"ぬるぽ".to_string()), Some("ガッ".to_string()));
    assert_eq!(canned_reply(&"!hello".to_string()), Some("world!".to_string()));
    assert_eq!(canned_reply(&"hello".to_string()), None);
}

#[test]
fn language_labels_and_prompt() {
    assert_eq!(Language::English.label(), "英語");
    assert_eq!(Language::ChineseTraditional.label(), "中国語（繁体字）");
    assert_eq!(Language::Arabic.label(), "アラビア語");
    assert_eq!(
        translation_prompt(Language::French, "hello"),
        "以下のテキストをフランス語に翻訳してください。翻訳文のみ出力してください:\n\nhello"
    );
}

#[test]
fn long_original_is_cut_for_display() {
    let long = "あ".repeat(1001);
    assert_eq!(display_excerpt(&long), format!("{}…", "あ".repeat(1000)));
    let exact = "あ".repeat(1000);
    assert_eq!(display_excerpt(&exact), exact);
}

#[test]
fn summary_count_is_clamped() {
    assert_eq!(summary_count(None), 10);
    assert_eq!(summary_count(Some(0)), 1);
    assert_eq!(summary_count(Some(70)), 50);
    assert_eq!(summary_count(Some(20)), 20);
}

#[test]
fn transcript_skips_bots_and_empty() {
    let history = vec![msg("bob", "second", false), msg("bot", "beep", true), msg("ann", "", false), msg("ann", "first", false)];
    let t = transcript(&history);
    assert_eq!(t, "ann: first\nbob: second");
    assert_eq!(summary_prompt(&t), "以下の会話を簡潔に要約してください:\n\nann: first\nbob: second");
    assert_eq!(transcript(&vec![msg("bot", "beep", true)]), "");
}

#[test]
fn age_message_reads_naturally() {
    assert_eq!(
        age_message("ann", 2016, 3, 7, 3512),
        "annさんは2016年3月7日にDiscordに生まれました。\n3512日が経過しています。"
    );
    assert_eq!(
        age_message("bob", 2020, 12, 31, -1),
        "bobさんは2020年12月31日にDiscordに生まれました。\n-1日が経過しています。"
    );
}

#[test]
fn id_lists_are_read() {
    assert_eq!(parse_id_list("1, 2,3"), vec![1, 2, 3]);
    assert_eq!(parse_id_list(""), Vec::<u64>::new());
    assert_eq!(parse_id_list("12,abc, ,+7,-4,18446744073709551615,18446744073709551616"), vec![12, 7, 18446744073709551615]);
    assert_eq!(parse_id_list(" 42 "), vec![42]);
    assert_eq!(parse_id_list("５,6"), vec![6]);
}

#[test]
fn account_age_from_timestamps() {
    assert_eq!(
        account_age_message("ann", 1457352000, 1760788900),
        Some("annさんは2016年3月7日にDiscordに生まれました。\n3512日が経過しています。".to_string())
    );
    assert_eq!(account_age_message("ann", i64::MAX, 0), None);
}

#[test]
fn days_round_toward_zero() {
    assert_eq!(days_between(0, 86399), 0);
    assert_eq!(days_between(0, 86400), 1);
    assert_eq!(days_between(86399, 0), 0);
    assert_eq!(days_between(2 * 86400 + 5, 0), -2);
    assert_eq!(days_between(i64::MIN, i64::MAX), 213503982334601);
}
