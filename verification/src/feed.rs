//! Atom 1.0 output of the stored feed items.

use vstd::prelude::*;
use crate::db::FeedItem;
use crate::text::{push_xml_escaped, xml_escaped};

verus! {

/// The `<entry>` element of one item: its title, link, id, the time it was
/// stored (as both `<published>` and `<updated>`), its preview and its
/// site. Every text taken from the item is XML-escaped.
pub open spec fn atom_entry(item: FeedItem) -> Seq<char> {
    "  <entry>\n"@
        + "    <title>"@ + xml_escaped("["@ + item.site@ + "] "@ + item.title@) + "</title>\n"@
        + "    <link href=\""@ + xml_escaped(item.url@) + "\" />\n"@
        + "    <id>"@ + xml_escaped(item.site@ + ":"@ + item.external_id@) + "</id>\n"@
        + "    <published>"@ + xml_escaped(item.created_at@) + "</published>\n"@
        + "    <updated>"@ + xml_escaped(item.created_at@) + "</updated>\n"@
        + "    <content type=\"text\">"@ + xml_escaped(item.preview@) + "</content>\n"@
        + "    <category term=\""@ + xml_escaped(item.site@) + "\" />\n"@
        + "  </entry>\n"@
}

/// The entries of `items`, in order.
pub open spec fn atom_entries(items: Seq<FeedItem>) -> Seq<char>
    decreases items.len(),
{
    if items.len() == 0 {
        Seq::empty()
    } else {
        atom_entries(items.drop_last()) + atom_entry(items.last())
    }
}

/// The feed's `<updated>` value: the creation time of the first item, or
/// the epoch when there is none. It is written as it stands.
pub open spec fn atom_updated(items: Seq<FeedItem>) -> Seq<char> {
    if items.len() > 0 {
        items[0].created_at@
    } else {
        "1970-01-01T00:00:00Z"@
    }
}

/// The whole Atom document for `items`.
pub open spec fn atom_document(items: Seq<FeedItem>) -> Seq<char> {
    "<?xml version=\"1.0\" encoding=\"utf-8\"?>\n"@
        + "<feed xmlns=\"http://www.w3.org/2005/Atom\">\n"@
        + "  <title>myfeed</title>\n"@
        + "  <id>urn:myfeed</id>\n"@
        + "  <updated>"@ + atom_updated(items) + "</updated>\n"@
        + atom_entries(items)
        + "</feed>\n"@
}

fn push_entry(out: &mut String, item: &FeedItem)
    ensures
        final(out)@ == old(out)@ + atom_entry(*item),
{
    let mut title = String::new();
    title.append("[");
    title.append(item.site.as_str());
    title.append("] ");
    title.append(item.title.as_str());
    let mut id = String::new();
    id.append(item.site.as_str());
    id.append(":");
    id.append(item.external_id.as_str());

    let ghost o0 = out@;
    out.append("  <entry>\n");
    out.append("    <title>");
    push_xml_escaped(out, title.as_str());
    out.append("</title>\n");
    let ghost o1 = out@;
    out.append("    <link href=\"");
    push_xml_escaped(out, item.url.as_str());
    out.append("\" />\n");
    let ghost o2 = out@;
    out.append("    <id>");
    push_xml_escaped(out, id.as_str());
    out.append("</id>\n");
    let ghost o3 = out@;
    out.append("    <published>");
    push_xml_escaped(out, item.created_at.as_str());
    out.append("</published>\n");
    out.append("    <updated>");
    push_xml_escaped(out, item.created_at.as_str());
    out.append("</updated>\n");
    let ghost o4 = out@;
    out.append("    <content type=\"text\">");
    push_xml_escaped(out, item.preview.as_str());
    out.append("</content>\n");
    let ghost o5 = out@;
    out.append("    <category term=\"");
    push_xml_escaped(out, item.site.as_str());
    out.append("\" />\n");
    out.append("  </entry>\n");
    assert(title@ =~= "["@ + item.site@ + "] "@ + item.title@);
    assert(id@ =~= item.site@ + ":"@ + item.external_id@);
    assert(out@ =~= old(out)@ + atom_entry(*item));
}

/// Escapes `&`, `<`, `>` and `"` for XML text and attribute values.
pub fn escape_xml(s: &str) -> (r: String)
    ensures
        r@ == xml_escaped(s@),
{
    let mut r = String::new();
    push_xml_escaped(&mut r, s);
    assert(r@ =~= xml_escaped(s@));
    r
}

/// Generates an Atom 1.0 XML feed from a list of feed items.
pub fn generate_atom(items: &[FeedItem]) -> (xml: String)
    ensures
        xml@ == atom_document(items@),
{
    let mut xml = String::new();
    xml.append("<?xml version=\"1.0\" encoding=\"utf-8\"?>\n");
    xml.append("<feed xmlns=\"http://www.w3.org/2005/Atom\">\n");
    xml.append("  <title>myfeed</title>\n");
    xml.append("  <id>urn:myfeed</id>\n");
    xml.append("  <updated>");
    if items.len() > 0 {
        xml.append(items[0].created_at.as_str());
    } else {
        xml.append("1970-01-01T00:00:00Z");
    }
    xml.append("</updated>\n");
    let ghost head = xml@;
    let mut i: usize = 0;
    assert(items@.take(0) =~= Seq::<FeedItem>::empty());
    assert(xml@ =~= head + atom_entries(items@.take(0)));
    while i < items.len()
        invariant
            i <= items.len(),
            xml@ == head + atom_entries(items@.take(i as int)),
        decreases items.len() - i,
    {
        push_entry(&mut xml, &items[i]);
        assert(items@.take(i + 1).drop_last() =~= items@.take(i as int));
        assert(items@.take(i + 1).last() == items@[i as int]);
        i = i + 1;
        assert(xml@ =~= head + atom_entries(items@.take(i as int)));
    }
    xml.append("</feed>\n");
    assert(items@.take(items.len() as int) =~= items@);
    assert(xml@ =~= atom_document(items@));
    xml
}

/// The start of every Atom document, up to the feed's `<updated>` value.
pub open spec fn feed_head() -> Seq<char> {
    "<?xml version=\"1.0\" encoding=\"utf-8\"?>\n<feed xmlns=\"http://www.w3.org/2005/Atom\">\n  <title>myfeed</title>\n  <id>urn:myfeed</id>\n  <updated>"@
}

/// The feed's `<updated>` value is the creation time of the first item
/// (the newest, as the store lists them), or the epoch for an empty feed:
/// the document begins with the header, that time and `</updated>`.
pub proof fn lemma_feed_updated_is_first_item(items: Seq<FeedItem>)
    ensures
        items.len() > 0 ==> atom_document(items).take(
            (feed_head().len() + items[0].created_at@.len() + 11) as int,
        ) == feed_head() + items[0].created_at@ + "</updated>\n"@,
        items.len() == 0 ==> atom_document(items) == feed_head() + "1970-01-01T00:00:00Z"@
            + "</updated>\n"@ + "</feed>\n"@,
{
    reveal_strlit("</updated>\n");
    let head = "<?xml version=\"1.0\" encoding=\"utf-8\"?>\n"@ + "<feed xmlns=\"http://www.w3.org/2005/Atom\">\n"@
        + "  <title>myfeed</title>\n"@ + "  <id>urn:myfeed</id>\n"@ + "  <updated>"@;
    reveal_strlit("<?xml version=\"1.0\" encoding=\"utf-8\"?>\n");
    reveal_strlit("<feed xmlns=\"http://www.w3.org/2005/Atom\">\n");
    reveal_strlit("  <title>myfeed</title>\n");
    reveal_strlit("  <id>urn:myfeed</id>\n");
    reveal_strlit("  <updated>");
    reveal_strlit("<?xml version=\"1.0\" encoding=\"utf-8\"?>\n<feed xmlns=\"http://www.w3.org/2005/Atom\">\n  <title>myfeed</title>\n  <id>urn:myfeed</id>\n  <updated>");
    assert(head =~= feed_head());
    if items.len() > 0 {
        let u = head + items[0].created_at@ + "</updated>\n"@;
        let doc = atom_document(items);
        assert(doc =~= u + atom_entries(items) + "</feed>\n"@);
        assert(u.len() == feed_head().len() + items[0].created_at@.len() + 11);
        assert(doc.take(u.len() as int) =~= u);
    } else {
        assert(atom_entries(items) =~= Seq::<char>::empty());
        assert(atom_document(items) =~= head + "1970-01-01T00:00:00Z"@ + "</updated>\n"@
            + "</feed>\n"@);
    }
}

} // verus!
