//! One scraped listing and its mathematical view.

use vstd::prelude::*;

verus! {

/// What a listing is in contracts: its identifier and its display fields.
pub ghost struct ListingView {
    pub id: Seq<char>,
    pub location: Option<Seq<char>>,
    pub price: Option<Seq<char>>,
    pub size: Option<Seq<char>>,
    pub href: Option<Seq<char>>,
}

/// One item found on a results page. Only `id` takes part in novelty
/// comparisons; the other fields are display text.
#[derive(Clone, Debug, PartialEq, Eq)]
pub struct Listing {
    pub id: String,
    pub location: Option<String>,
    pub price: Option<String>,
    pub size: Option<String>,
    pub href: Option<String>,
}

/// The view of an optional string.
pub open spec fn text_view(s: Option<String>) -> Option<Seq<char>> {
    match s {
        Some(t) => Some(t@),
        None => None,
    }
}

impl View for Listing {
    type V = ListingView;

    open spec fn view(&self) -> ListingView {
        ListingView {
            id: self.id@,
            location: text_view(self.location),
            price: text_view(self.price),
            size: text_view(self.size),
            href: text_view(self.href),
        }
    }
}

impl DeepView for Listing {
    type V = ListingView;

    open spec fn deep_view(&self) -> ListingView {
        self@
    }
}

/// The identifiers of a sequence of listings, in the same order.
pub open spec fn identifiers(listings: Seq<ListingView>) -> Seq<Seq<char>> {
    listings.map_values(|l: ListingView| l.id)
}

/// Copies an optional string.
pub fn copy_text(s: &Option<String>) -> (r: Option<String>)
    ensures
        text_view(r) == text_view(*s),
{
    match s {
        Some(t) => Some(t.clone()),
        None => None,
    }
}

/// The text of an optional display field: `fallback` where it is absent.
pub open spec fn text_or(field: Option<Seq<char>>, fallback: Seq<char>) -> Seq<char> {
    match field {
        Some(text) => text,
        None => fallback,
    }
}

/// The message that announces a listing: the location and a colon, then the
/// price and the size, each on a line of its own after a tab, then the link
/// on the last line. An absent field is written as unknown.
pub open spec fn message_text(listing: ListingView) -> Seq<char> {
    text_or(listing.location, "Unknown location"@) + ":\n\t"@ + text_or(
        listing.price,
        "Unknown price"@,
    ) + "\n\t"@ + text_or(listing.size, "Unknown size"@) + "\n"@ + text_or(
        listing.href,
        "Unknown link"@,
    )
}

/// Appends to `out` the text of `field`, or `fallback` where it is absent.
fn append_or(out: &mut String, field: &Option<String>, fallback: &str)
    ensures
        final(out)@ == old(out)@ + text_or(text_view(*field), fallback@),
{
    match field {
        Some(text) => out.append(text.as_str()),
        None => out.append(fallback),
    }
}

impl Listing {
    /// The message that announces this listing to a subscriber.
    pub fn notification_text(&self) -> (text: String)
        ensures
            text@ == message_text(self@),
    {
        let mut text = String::new();
        append_or(&mut text, &self.location, "Unknown location");
        text.append(":\n\t");
        append_or(&mut text, &self.price, "Unknown price");
        text.append("\n\t");
        append_or(&mut text, &self.size, "Unknown size");
        text.append("\n");
        append_or(&mut text, &self.href, "Unknown link");
        text
    }

    /// A copy with the same view.
    pub fn duplicate(&self) -> (r: Listing)
        ensures
            r@ == self@,
    {
        Listing {
            id: self.id.clone(),
            location: copy_text(&self.location),
            price: copy_text(&self.price),
            size: copy_text(&self.size),
            href: copy_text(&self.href),
        }
    }
}

} // verus!
