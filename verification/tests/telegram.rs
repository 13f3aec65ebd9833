use myfeed::telegram::{
    after_send, escape_html, Consumer, ConsumerAction, ConsumerEvent, feed_item_message, send_message_url, ConsumerStep, TelegramError,
};

#[test]
fn escape_html_special_chars() {
    assert_eq!(escape_html("a & b"), "a &amp; b");
    assert_eq!(escape_html("<script>"), "&lt;script&gt;");
    assert_eq!(escape_html("normal text"), "normal text");
    assert_eq!(escape_html(""), "");
}

#[test]
fn escape_html_combined() {
    assert_eq!(escape_html("1 < 2 & 3 > 0"), "1 &lt; 2 &amp; 3 &gt; 0");
}

#[test]
fn escape_html_keeps_quotes() {
    assert_eq!(escape_html("\"q\""), "\"q\"");
}

#[test]
fn feed_item_message_with_and_without_url() {
    assert_eq!(
        feed_item_message("hn", "A <b>", "https://e.com", "p & q"),
        "<b>[hn]</b> <a href=\"https://e.com\">A &lt;b&gt;</a>\np &amp; q"
    );
    assert_eq!(feed_item_message("hn", "T", "", "P"), "<b>[hn]</b> T\nP");
}

#[test]
fn send_message_url_embeds_token() {
    assert_eq!(
        send_message_url("123:abc"),
        "https://api.telegram.org/bot123:abc/sendMessage"
    );
}

#[test]
fn consumer_retries_rate_limited_messages() {
    let limited = Err(TelegramError::Api { status: 429, body: String::new() });
    assert_eq!(after_send(&limited, Some(9)), ConsumerStep::Resend { wait_secs: 9 });
    assert_eq!(after_send(&limited, None), ConsumerStep::Resend { wait_secs: 10 });
    let other = Err(TelegramError::Api { status: 400, body: String::new() });
    assert_eq!(after_send(&other, Some(9)), ConsumerStep::Advance { wait_secs: 1 });
    let http = Err(TelegramError::Http("timeout".to_string()));
    assert_eq!(after_send(&http, None), ConsumerStep::Advance { wait_secs: 1 });
    assert_eq!(after_send(&Ok(()), None), ConsumerStep::Advance { wait_secs: 1 });
}

#[test]
fn telegram_error_messages() {
    assert_eq!(
        TelegramError::Http("boom".to_string()).describe(),
        "telegram HTTP error: boom"
    );
    assert_eq!(
        TelegramError::Api { status: 429, body: "slow".to_string() }.describe(),
        "telegram API error (429): slow"
    );
}

#[test]
fn consumer_delivers_in_order_and_resends_rate_limited() {
    let mut c = Consumer::new();
    assert_eq!(c.step(ConsumerEvent::Started), ConsumerAction::Receive);
    assert_eq!(
        c.step(ConsumerEvent::Received(Some("m1".to_string()))),
        ConsumerAction::Send { text: "m1".to_string() }
    );
    let limited = Err(TelegramError::Api { status: 429, body: String::new() });
    assert_eq!(
        c.step(ConsumerEvent::Replied { result: limited, retry_after: Some(3) }),
        ConsumerAction::Sleep { secs: 3 }
    );
    assert_eq!(c.step(ConsumerEvent::Slept), ConsumerAction::Send { text: "m1".to_string() });
    assert_eq!(
        c.step(ConsumerEvent::Replied { result: Ok(()), retry_after: None }),
        ConsumerAction::Sleep { secs: 1 }
    );
    assert_eq!(c.step(ConsumerEvent::Slept), ConsumerAction::Receive);
    assert_eq!(
        c.step(ConsumerEvent::Received(Some("m2".to_string()))),
        ConsumerAction::Send { text: "m2".to_string() }
    );
    let bad = Err(TelegramError::Api { status: 400, body: String::new() });
    assert_eq!(
        c.step(ConsumerEvent::Replied { result: bad, retry_after: None }),
        ConsumerAction::Sleep { secs: 1 }
    );
    assert_eq!(c.step(ConsumerEvent::Slept), ConsumerAction::Receive);
    assert_eq!(c.step(ConsumerEvent::Received(None)), ConsumerAction::Stop);
    assert_eq!(c.step(ConsumerEvent::Slept), ConsumerAction::Stop);
}
