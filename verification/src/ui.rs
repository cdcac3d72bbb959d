//! The decisions the web pages make: what the navigation bar shows, where
//! the sidebar and main area sit, and how the listing form's button reads.
use vstd::prelude::*;

use crate::listing::Listing;
use crate::text::{decimal, push_decimal, str_eq};

verus! {

/// How far the open sidebar pushes the main area, in pixels.
pub const SIDEBAR_WIDTH_PX: u32 = 280;

/// The main area's left margin: the sidebar's width while it is open.
pub fn main_margin_left(sidebar_open: bool) -> (px: u32)
    ensures
        px == if sidebar_open {
            SIDEBAR_WIDTH_PX
        } else {
            0
        },
{
    if sidebar_open {
        SIDEBAR_WIDTH_PX
    } else {
        0
    }
}

/// The sidebar's CSS transform: in view while open, slid out to the left
/// otherwise.
pub fn sidebar_transform(sidebar_open: bool) -> (t: &'static str)
    ensures
        t@ == if sidebar_open {
            "translateX(0%)"@
        } else {
            "translateX(-100%)"@
        },
{
    if sidebar_open {
        "translateX(0%)"
    } else {
        "translateX(-100%)"
    }
}

/// Whether the sidebar toggle is shown: everywhere but the home page, and on
/// the home page while the sidebar is open (so that it can be closed).
pub fn show_sidebar_toggle(pathname: &str, sidebar_open: bool) -> (shown: bool)
    ensures
        shown == (pathname@ != "/"@ || sidebar_open),
{
    !str_eq(pathname, "/") || sidebar_open
}

/// The toggle's symbol: a cross while the sidebar is open, a menu icon
/// otherwise.
pub fn toggle_icon(sidebar_open: bool) -> (icon: &'static str)
    ensures
        icon@ == if sidebar_open {
            "\u{2715}"@
        } else {
            "\u{2630}"@
        },
{
    if sidebar_open {
        "\u{2715}"
    } else {
        "\u{2630}"
    }
}

/// Whether a navigation link points at the current page.
pub fn nav_link_active(pathname: &str, href: &str) -> (active: bool)
    ensures
        active == (pathname@ == href@),
{
    str_eq(pathname, href)
}

/// A navigation link's colour: highlighted when it points at the current
/// page.
pub fn nav_link_color(active: bool) -> (color: &'static str)
    ensures
        color@ == if active {
            "#6c63ff"@
        } else {
            "#ccc"@
        },
{
    if active {
        "#6c63ff"
    } else {
        "#ccc"
    }
}

/// The listing form's button label: busy while a creation is pending.
pub fn submit_label(pending: bool) -> (label: &'static str)
    ensures
        label@ == if pending {
            "Creating..."@
        } else {
            "Create Listing"@
        },
{
    if pending {
        "Creating..."
    } else {
        "Create Listing"
    }
}

/// A listing card's heading: `#` and the listing's id.
pub fn listing_title(id: u64) -> (t: String)
    ensures
        t@ == "#"@ + decimal(id as nat),
{
    let mut t = String::from_str("#");
    push_decimal(&mut t, id);
    t
}

/// An amount as a card shows it: the number of satoshis and "sats".
pub fn amount_text(sats: u64) -> (t: String)
    ensures
        t@ == decimal(sats as nat) + " sats"@,
{
    let mut t = String::new();
    push_decimal(&mut t, sats);
    t.append(" sats");
    t
}

/// Whether a card shows its strip of tags: only when there are tags.
pub fn show_tags(tags: &Vec<String>) -> (shown: bool)
    ensures
        shown == (tags@.len() > 0),
{
    tags.len() > 0
}

/// What the listings page shows for the answer to its search.
#[derive(Debug, Clone, Copy, PartialEq, Eq)]
pub enum ListingsDisplay {
    /// The search succeeded and found nothing: "No listings found."
    NoneFound,
    /// The search found listings: one card each.
    Cards,
    /// The search failed: the error.
    Failed,
}

/// Chooses what the listings page shows for the answer to its search.
pub fn listings_display(answer: &Result<Vec<Listing>, String>) -> (d: ListingsDisplay)
    ensures
        d == match answer {
            Ok(items) => if items@.len() == 0 {
                ListingsDisplay::NoneFound
            } else {
                ListingsDisplay::Cards
            },
            Err(_) => ListingsDisplay::Failed,
        },
{
    match answer {
        Ok(items) => if items.len() == 0 {
            ListingsDisplay::NoneFound
        } else {
            ListingsDisplay::Cards
        },
        Err(_) => ListingsDisplay::Failed,
    }
}

/// How the listings page reports a failed search.
pub fn error_text(message: &str) -> (t: String)
    ensures
        t@ == "Error: "@ + message@,
{
    let mut t = String::from_str("Error: ");
    t.append(message);
    t
}

} // verus!
