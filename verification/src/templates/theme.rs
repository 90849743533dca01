//! Brand themes: the colours and chrome text of the rendered e-mail.
use vstd::prelude::*;
use crate::text::owned;

verus! {

/// The brand of a rendered e-mail. Values are inserted into the HTML as
/// given (themes are configuration, not user input).
#[derive(Debug, Clone, PartialEq, Eq)]
pub struct Theme {
    /// Letter shown in the hero's monogram tile.
    pub monogram: String,
    /// Brand name in the hero.
    pub brand_name: String,
    /// Muted suffix after the brand name in the hero.
    pub brand_suffix: String,
    /// Tagline under the brand name.
    pub tagline: String,
    /// Legal name in the footer.
    pub legal_name: String,
    /// Location in the footer.
    pub location: String,
    /// Website host, linked over `https://`.
    pub website: String,
    /// Contact address, linked over `mailto:`.
    pub contact_email: String,
    /// Darkest hero gradient stop.
    pub brand_navy: String,
    /// Primary brand colour: pills, buttons, links, gradient middle.
    pub brand_primary: String,
    /// Accent colour: gradient end and card rules.
    pub brand_accent: String,
}

/// A theme as plain values.
pub struct ThemeV {
    pub monogram: Seq<char>,
    pub brand_name: Seq<char>,
    pub brand_suffix: Seq<char>,
    pub tagline: Seq<char>,
    pub legal_name: Seq<char>,
    pub location: Seq<char>,
    pub website: Seq<char>,
    pub contact_email: Seq<char>,
    pub brand_navy: Seq<char>,
    pub brand_primary: Seq<char>,
    pub brand_accent: Seq<char>,
}

impl View for Theme {
    type V = ThemeV;

    open spec fn view(&self) -> ThemeV {
        ThemeV {
            monogram: self.monogram@,
            brand_name: self.brand_name@,
            brand_suffix: self.brand_suffix@,
            tagline: self.tagline@,
            legal_name: self.legal_name@,
            location: self.location@,
            website: self.website@,
            contact_email: self.contact_email@,
            brand_navy: self.brand_navy@,
            brand_primary: self.brand_primary@,
            brand_accent: self.brand_accent@,
        }
    }
}

/// The PlausiDen palette and chrome.
pub open spec fn plausiden_theme() -> ThemeV {
    ThemeV {
        monogram: "P"@,
        brand_name: "PlausiDen"@,
        brand_suffix: "LLC"@,
        tagline: "Plausible. Defensible."@,
        legal_name: "PlausiDen LLC"@,
        location: "Massachusetts, USA"@,
        website: "plausiden.com"@,
        contact_email: "team@plausiden.com"@,
        brand_navy: "#0a2c52"@,
        brand_primary: "#0d488a"@,
        brand_accent: "#3b82f6"@,
    }
}

/// The SacredVote palette and chrome.
pub open spec fn sacredvote_theme() -> ThemeV {
    ThemeV {
        monogram: "S"@,
        brand_name: "SacredVote"@,
        brand_suffix: "PBC"@,
        tagline: "Defending the ballot."@,
        legal_name: "SacredVote PBC"@,
        location: "Massachusetts, USA"@,
        website: "sacred.vote"@,
        contact_email: "team@sacred.vote"@,
        brand_navy: "#1e1b4b"@,
        brand_primary: "#4338ca"@,
        brand_accent: "#f59e0b"@,
    }
}

/// Whether a theme carries the PlausiDen palette and chrome.
pub open spec fn is_plausiden(t: Theme) -> bool {
    t@ == plausiden_theme()
}

/// Whether a theme carries the SacredVote palette and chrome.
pub open spec fn is_sacredvote(t: Theme) -> bool {
    t@ == sacredvote_theme()
}

impl Theme {
    /// The PlausiDen palette and chrome, the default.
    pub fn plausiden() -> (t: Theme)
        ensures
            is_plausiden(t),
    {
        Theme {
            monogram: owned("P"),
            brand_name: owned("PlausiDen"),
            brand_suffix: owned("LLC"),
            tagline: owned("Plausible. Defensible."),
            legal_name: owned("PlausiDen LLC"),
            location: owned("Massachusetts, USA"),
            website: owned("plausiden.com"),
            contact_email: owned("team@plausiden.com"),
            brand_navy: owned("#0a2c52"),
            brand_primary: owned("#0d488a"),
            brand_accent: owned("#3b82f6"),
        }
    }

    /// The SacredVote tenant's palette and chrome.
    pub fn sacredvote() -> (t: Theme)
        ensures
            is_sacredvote(t),
    {
        Theme {
            monogram: owned("S"),
            brand_name: owned("SacredVote"),
            brand_suffix: owned("PBC"),
            tagline: owned("Defending the ballot."),
            legal_name: owned("SacredVote PBC"),
            location: owned("Massachusetts, USA"),
            website: owned("sacred.vote"),
            contact_email: owned("team@sacred.vote"),
            brand_navy: owned("#1e1b4b"),
            brand_primary: owned("#4338ca"),
            brand_accent: owned("#f59e0b"),
        }
    }
}

} // verus!
