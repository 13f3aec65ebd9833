//! Delivery channels. The channels themselves (Telegram, stdout) are driven
//! by the application; this module holds what the stdout channel prints.

use vstd::prelude::*;

verus! {

/// A notifier that prints to stdout. Useful for testing and debugging.
#[derive(Debug, Clone, Copy)]
pub struct StdoutNotifier;

/// The line printed for a feed item: site, title, URL (when there is one)
/// and preview, separated by bars.
pub open spec fn stdout_item_line(
    site: Seq<char>,
    title: Seq<char>,
    url: Seq<char>,
    preview: Seq<char>,
) -> Seq<char> {
    if url.len() == 0 {
        "["@ + site + "] "@ + title + " | "@ + preview
    } else {
        "["@ + site + "] "@ + title + " | "@ + url + " | "@ + preview
    }
}

impl StdoutNotifier {
    /// The line this notifier prints for a feed item.
    pub fn feed_item_line(&self, site: &str, title: &str, url: &str, preview: &str) -> (r: String)
        ensures
            r@ == stdout_item_line(site@, title@, url@, preview@),
    {
        let mut r = String::new();
        r.append("[");
        r.append(site);
        r.append("] ");
        r.append(title);
        r.append(" | ");
        if url.unicode_len() > 0 {
            r.append(url);
            r.append(" | ");
        }
        r.append(preview);
        assert(r@ =~= stdout_item_line(site@, title@, url@, preview@));
        r
    }

    /// The line this notifier prints for a plain message: the message itself.
    pub fn message_line(&self, text: &str) -> (r: String)
        ensures
            r@ == text@,
    {
        let mut r = String::new();
        r.append(text);
        assert(r@ =~= text@);
        r
    }
}

} // verus!
