use userbot::UserBotErrorKind;
use userbot::bot::{Action, Attachment, Event, Message, Plan, ReferencedMessage, UserBot};
use userbot::filters::Filters;

fn fresh_bot() -> UserBot {
    UserBot::new(7, ".", Filters::load_at(":memory:").unwrap())
}

fn own(content: &str) -> Event {
    message(7, content, None)
}

fn foreign(author: u64, content: &str) -> Event {
    message(author, content, None)
}

fn message(author: u64, content: &str, reply: Option<ReferencedMessage>) -> Event {
    Event::MessageCreated(Message {
        id: 555,
        channel_id: 100,
        author_id: author,
        content: content.to_string(),
        attachments: Vec::new(),
        referenced_message: reply,
    })
}

fn reply_to(content: &str, attachments: Vec<Attachment>) -> Option<ReferencedMessage> {
    Some(ReferencedMessage { content: content.to_string(), attachments })
}

/// Carry the plan out as the surrounding program would when every transport
/// call succeeds, and arm suppression accordingly.
fn complete(bot: &mut UserBot, plan: &Plan) {
    if plan.error.is_none() && plan.arm_on_success {
        bot.arm_skip();
    }
}

#[test]
fn help_is_deleted_answered_and_suppressed() {
    let mut bot = fresh_bot();
    let plan = bot.handle_event(own(".help"));
    assert!(plan.error.is_none());
    assert!(plan.arm_on_success);
    assert_eq!(plan.steps.len(), 2);
    assert_eq!(plan.steps[0].action, Action::Delete { channel_id: 100, message_id: 555 });
    assert!(!plan.steps[0].must_succeed);
    let help_body = match &plan.steps[1].action {
        Action::SendText { channel_id, body } => {
            assert_eq!(*channel_id, 100);
            assert!(plan.steps[1].must_succeed);
            body.clone()
        },
        other => panic!("expected a text post, got {:?}", other),
    };
    assert_eq!(
        help_body,
        "**Discord Userbot**\n`.help` - Shows this message\n`.debug` - Show debug info about current message\n`.repeat n message` - Repeat `message` `n` times\n`.filter name` - Saves a filter with the message you're replying to for this channel\n`.filters` - List saved filters for this channel"
    );

    complete(&mut bot, &plan);
    assert!(bot.skip_armed());
    let echo = bot.handle_event(own(&help_body));
    assert_eq!(echo.steps.len(), 0);
    assert!(echo.error.is_none());
    assert!(!bot.skip_armed());
}

#[test]
fn repeat_by_count_posts_n_times() {
    let mut bot = fresh_bot();
    let plan = bot.handle_event(own(".repeat 3 hi there"));
    assert!(plan.error.is_none());
    assert_eq!(plan.steps.len(), 4);
    assert_eq!(plan.steps[0].action, Action::Delete { channel_id: 100, message_id: 555 });
    assert!(plan.steps[0].must_succeed);
    for i in 1..4 {
        assert_eq!(
            plan.steps[i].action,
            Action::SendText { channel_id: 100, body: "hi there".to_string() }
        );
        assert!(plan.steps[i].must_succeed);
    }
}

#[test]
fn repeat_via_reply_uses_the_replied_text() {
    let mut bot = fresh_bot();
    let plan = bot.handle_event(message(7, ".repeat 2", reply_to("ping", Vec::new())));
    assert!(plan.error.is_none());
    assert_eq!(plan.steps.len(), 3);
    for i in 1..3 {
        assert_eq!(
            plan.steps[i].action,
            Action::SendText { channel_id: 100, body: "ping".to_string() }
        );
    }
}

#[test]
fn repeat_with_nonpositive_count_posts_nothing() {
    let mut bot = fresh_bot();
    let plan = bot.handle_event(own(".repeat -5 void"));
    assert!(plan.error.is_none());
    assert_eq!(plan.steps.len(), 1);
    let plan = bot.handle_event(own(".repeat 0 void"));
    assert!(plan.error.is_none());
    assert_eq!(plan.steps.len(), 1);
}

#[test]
fn repeat_missing_arguments_fails_after_the_delete() {
    let mut bot = fresh_bot();
    let plan = bot.handle_event(own(".repeat"));
    assert_eq!(plan.steps.len(), 1);
    assert_eq!(plan.steps[0].action, Action::Delete { channel_id: 100, message_id: 555 });
    assert!(matches!(plan.error.as_ref().unwrap().kind(), UserBotErrorKind::MissingParameter));
    assert!(!plan.arm_on_success);
    complete(&mut bot, &plan);
    assert!(!bot.skip_armed());

    let plan = bot.handle_event(own(".repeat 2"));
    assert!(matches!(plan.error.as_ref().unwrap().kind(), UserBotErrorKind::MissingParameter));
    assert_eq!(plan.steps.len(), 1);
}

#[test]
fn repeat_with_a_bad_count_is_a_parse_error() {
    let mut bot = fresh_bot();
    let plan = bot.handle_event(own(".repeat lots hi"));
    assert_eq!(plan.steps.len(), 1);
    assert!(matches!(plan.error.as_ref().unwrap().kind(), UserBotErrorKind::ParseError));
}

#[test]
fn text_filter_is_created_acknowledged_and_fires() {
    let mut bot = fresh_bot();
    let plan = bot.handle_event(message(7, ".filter cat", reply_to("meow", Vec::new())));
    assert!(plan.error.is_none());
    assert_eq!(plan.steps.len(), 1);
    assert_eq!(
        plan.steps[0].action,
        Action::SendText { channel_id: 100, body: "Filter `cat` saved!".to_string() }
    );
    assert!(!plan.steps[0].must_succeed);
    complete(&mut bot, &plan);
    assert!(bot.skip_armed());

    // the own echo of the acknowledgement is consumed silently
    let echo = bot.handle_event(own("Filter `cat` saved!"));
    assert_eq!(echo.steps.len(), 0);
    assert!(!bot.skip_armed());

    // a foreign message containing the trigger is rewritten
    let plan = bot.handle_event(foreign(9, "look at the cat!"));
    assert!(plan.error.is_none());
    assert_eq!(plan.steps.len(), 1);
    assert_eq!(
        plan.steps[0].action,
        Action::SendText { channel_id: 100, body: "meow".to_string() }
    );
    assert!(!plan.steps[0].must_succeed);
    assert!(bot.skip_armed());

    // the own echo of the substitution is dropped, not matched again
    let echo = bot.handle_event(own("meow"));
    assert_eq!(echo.steps.len(), 0);
    assert!(!bot.skip_armed());
}

#[test]
fn filter_without_a_reply_is_a_missing_parameter() {
    let mut bot = fresh_bot();
    let plan = bot.handle_event(own(".filter cat"));
    assert_eq!(plan.steps.len(), 0);
    assert!(matches!(plan.error.as_ref().unwrap().kind(), UserBotErrorKind::MissingParameter));
}

#[test]
fn attachment_filter_posts_the_stored_file() {
    let mut store = Filters::load_at(":memory:").unwrap();
    store
        .create_with_data(100, "dog", "woof", Some("y.png".to_string()), Some(vec![9, 9, 9]))
        .unwrap();
    let mut bot = UserBot::new(7, ".", store);

    let plan = bot.handle_event(foreign(9, "what a big dog"));
    assert!(plan.error.is_none());
    assert_eq!(plan.steps.len(), 1);
    assert_eq!(
        plan.steps[0].action,
        Action::SendFile {
            channel_id: 100,
            body: "woof".to_string(),
            data: vec![9, 9, 9],
            filename: "y.png".to_string(),
        }
    );
    assert!(bot.skip_armed());
}

#[test]
fn attachment_filter_without_a_name_falls_back_to_filter() {
    let mut store = Filters::load_at(":memory:").unwrap();
    store.create_with_data(100, "dog", "woof", None, Some(vec![1])).unwrap();
    let mut bot = UserBot::new(7, ".", store);
    let plan = bot.handle_event(foreign(9, "a dog"));
    match &plan.steps[0].action {
        Action::SendFile { filename, .. } => assert_eq!(filename, "filter"),
        other => panic!("expected a file post, got {:?}", other),
    }
}

#[test]
fn filters_listing_is_posted() {
    let mut bot = fresh_bot();
    let plan = bot.handle_event(message(7, ".filter cat", reply_to("meow", Vec::new())));
    complete(&mut bot, &plan);
    bot.handle_event(own("Filter `cat` saved!"));

    let plan = bot.handle_event(own(".filters"));
    assert!(plan.error.is_none());
    assert_eq!(plan.steps.len(), 2);
    assert_eq!(plan.steps[0].action, Action::Delete { channel_id: 100, message_id: 555 });
    assert!(!plan.steps[0].must_succeed);
    assert_eq!(
        plan.steps[1].action,
        Action::SendText { channel_id: 100, body: "**Filters:**\n`cat` - meow ".to_string() }
    );
}

#[test]
fn debug_posts_a_fenced_dump_of_the_message() {
    let mut bot = fresh_bot();
    let plan = bot.handle_event(own(".debug"));
    assert!(plan.error.is_none());
    assert_eq!(plan.steps.len(), 2);
    assert!(!plan.steps[0].must_succeed);
    assert!(plan.steps[1].must_succeed);
    match &plan.steps[1].action {
        Action::SendText { body, .. } => {
            assert!(body.starts_with("```\n"));
            assert!(body.ends_with("\n```"));
            assert!(body.contains(".debug"));
        },
        other => panic!("expected a text post, got {:?}", other),
    }
}

#[test]
fn unknown_commands_are_silently_accepted() {
    let mut bot = fresh_bot();
    let plan = bot.handle_event(own(".frobnicate now"));
    assert_eq!(plan.steps.len(), 0);
    assert!(plan.error.is_none());
    assert!(plan.arm_on_success);
    complete(&mut bot, &plan);
    assert!(bot.skip_armed());
}

#[test]
fn own_plain_messages_and_other_events_are_ignored() {
    let mut bot = fresh_bot();
    let plan = bot.handle_event(own("just chatting"));
    assert_eq!(plan.steps.len(), 0);
    assert!(!plan.arm_on_success);
    let plan = bot.handle_event(Event::Other);
    assert_eq!(plan.steps.len(), 0);
    assert!(plan.error.is_none());
}

#[test]
fn foreign_messages_without_a_matching_filter_are_dropped() {
    let mut bot = fresh_bot();
    let plan = bot.handle_event(foreign(9, "nothing to see"));
    assert_eq!(plan.steps.len(), 0);
    assert!(plan.error.is_none());
    assert!(!bot.skip_armed());
}

#[test]
fn a_custom_prefix_is_honoured() {
    let mut bot = UserBot::new(7, "!", Filters::load_at(":memory:").unwrap());
    let plan = bot.handle_event(own("!repeat 1 ok"));
    assert!(plan.error.is_none());
    assert_eq!(plan.steps.len(), 2);
    let plan = bot.handle_event(own(".repeat 1 ok"));
    assert_eq!(plan.steps.len(), 0);
}

#[test]
fn suppression_takes_precedence_over_commands() {
    let mut bot = fresh_bot();
    bot.arm_skip();
    let plan = bot.handle_event(own(".help"));
    assert_eq!(plan.steps.len(), 0);
    assert!(plan.error.is_none());
    assert!(!bot.skip_armed());

    let plan = bot.handle_event(own(".help"));
    assert_eq!(plan.steps.len(), 2);
}

#[test]
fn filter_with_a_reply_and_no_name_is_a_missing_parameter() {
    let mut bot = fresh_bot();
    let plan = bot.handle_event(message(7, ".filter", reply_to("meow", Vec::new())));
    assert_eq!(plan.steps.len(), 0);
    assert!(matches!(plan.error.as_ref().unwrap().kind(), UserBotErrorKind::MissingParameter));
    // nothing was stored, so nothing fires
    let plan = bot.handle_event(foreign(9, "anything"));
    assert_eq!(plan.steps.len(), 0);
}

#[test]
fn repeat_with_trailing_space_posts_the_empty_text() {
    let mut bot = fresh_bot();
    let plan = bot.handle_event(own(".repeat 2 "));
    assert!(plan.error.is_none());
    assert_eq!(plan.steps.len(), 3);
    assert_eq!(
        plan.steps[1].action,
        Action::SendText { channel_id: 100, body: "".to_string() }
    );
}
