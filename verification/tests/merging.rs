use prompt_codec::merge::merge_messages;
use prompt_codec::prompt::Message;

fn msg(role: &str, content: &str) -> Message {
    Message { role: role.to_string(), content: content.to_string() }
}

fn roles_and_contents(messages: &[Message]) -> Vec<(String, String)> {
    messages.iter().map(|m| (m.role.clone(), m.content.clone())).collect()
}

#[test]
fn merging_is_idempotent_on_example() {
    let input = vec![
        msg("system", "Be terse."),
        msg("user", "Hi"),
        msg("assistant", "Hello"),
        msg("user", "a"),
        msg("user", "b"),
    ];
    let once = merge_messages(&input);
    let twice = merge_messages(&once);
    assert_eq!(roles_and_contents(&once), roles_and_contents(&twice));
}

#[test]
fn merged_output_is_never_longer() {
    let input = vec![
        msg("user", "a"),
        msg("user", "b"),
        msg("assistant", "c"),
        msg("assistant", "d"),
        msg("user", "e"),
    ];
    let out = merge_messages(&input);
    assert!(out.len() <= input.len());
    assert_eq!(out.len(), 3);
}

#[test]
fn merged_contents_reproduce_the_original_contents() {
    let input = vec![
        msg("user", "a"),
        msg("user", "b"),
        msg("assistant", "c"),
        msg("user", "d"),
        msg("user", "e"),
    ];
    let out = merge_messages(&input);
    let joined_in: Vec<String> = input.iter().map(|m| m.content.clone()).collect();
    let joined_out: Vec<String> = out.iter().map(|m| m.content.clone()).collect();
    assert_eq!(joined_out.join("\n\n"), joined_in.join("\n\n"));
}

#[test]
fn no_system_role_survives_merging() {
    let input = vec![
        msg("system", "one"),
        msg("user", "two"),
        msg("system", "three"),
        msg("assistant", "four"),
    ];
    let out = merge_messages(&input);
    assert!(out.iter().all(|m| m.role != "system"));
}

#[test]
fn distinct_roles_pass_through_unmerged() {
    let input = vec![msg("user", "Hi"), msg("assistant", "Hello"), msg("user", "Bye")];
    let out = merge_messages(&input);
    assert_eq!(
        roles_and_contents(&out),
        vec![
            ("user".to_string(), "Hi".to_string()),
            ("assistant".to_string(), "Hello".to_string()),
            ("user".to_string(), "Bye".to_string()),
        ]
    );
}

#[test]
fn empty_conversation_merges_to_empty() {
    let out = merge_messages(&Vec::new());
    assert!(out.is_empty());
}

#[test]
fn empty_contents_merge_with_separators() {
    let input = vec![msg("user", ""), msg("user", "")];
    let out = merge_messages(&input);
    assert_eq!(out.len(), 1);
    assert_eq!(out[0].content, "\n\n");
}
