//! The kind of a rental site: a closed variant set with a free-text escape
//! hatch, and the pure normalization that maps raw user text into it.

use vstd::prelude::*;
use crate::text::{lower, lower_of, lower_of_props};

verus! {

/// The kind of a site. Free text that names no built-in kind lands in
/// `Other`, which by the validation rules always carries a non-empty label.
#[derive(Clone, Debug, PartialEq, Eq)]
pub enum SiteKind {
    Cabin,
    Flat,
    House,
    Other(String),
}

/// Mathematical image of [`SiteKind`]: the `Other` payload as a character
/// sequence.
pub enum SiteKindView {
    Cabin,
    Flat,
    House,
    Other(Seq<char>),
}

impl View for SiteKind {
    type V = SiteKindView;

    open spec fn view(&self) -> SiteKindView {
        match self {
            SiteKind::Cabin => SiteKindView::Cabin,
            SiteKind::Flat => SiteKindView::Flat,
            SiteKind::House => SiteKindView::House,
            SiteKind::Other(t) => SiteKindView::Other(t@),
        }
    }
}

/// Normalization of raw kind text: lower-case it, map the three built-in
/// names onto their variants, map empty text to the default `Cabin`, and
/// keep any other text verbatim (lower-cased) in `Other`.
pub open spec fn normalize_spec(s: Seq<char>) -> SiteKindView {
    let t = lower_of(s);
    if t.len() == 0 {
        SiteKindView::Cabin
    } else if t == "cabin"@ {
        SiteKindView::Cabin
    } else if t == "house"@ {
        SiteKindView::House
    } else if t == "flat"@ {
        SiteKindView::Flat
    } else {
        SiteKindView::Other(t)
    }
}

/// The display text of a kind: the built-in names title-cased, an `Other`
/// label verbatim.
pub open spec fn label_spec(k: SiteKindView) -> Seq<char> {
    match k {
        SiteKindView::Cabin => "Cabin"@,
        SiteKindView::Flat => "Flat"@,
        SiteKindView::House => "House"@,
        SiteKindView::Other(t) => t,
    }
}

impl SiteKind {
    /// Normalize raw kind text into a kind, as [`normalize_spec`] describes.
    /// The clauses beyond the first state the laws of normalization: empty
    /// text gives the default kind; normalizing is idempotent (rendering a
    /// normalized kind back to text and normalizing again changes nothing);
    /// and it is case-insensitive (lower-casing the input first changes
    /// nothing). They stand here because the facts about [`lower_of`] reach
    /// a proof only through the trusted lower-casing call this function
    /// makes.
    pub fn normalize(s: &str) -> (r: SiteKind)
        ensures
            r@ == normalize_spec(s@),
            (r@ matches SiteKindView::Other(t) ==> t.len() > 0),
            s@.len() == 0 ==> r@ == SiteKindView::Cabin,
            normalize_spec(label_spec(normalize_spec(s@))) == normalize_spec(s@),
            normalize_spec(lower_of(s@)) == normalize_spec(s@),
    {
        proof {
            reveal_strlit("cabin");
            reveal_strlit("house");
            reveal_strlit("flat");
            reveal_strlit("Cabin");
            reveal_strlit("House");
            reveal_strlit("Flat");
        }
        let t = lower(s);
        proof {
            lemma_normalize_laws(s@);
        }
        if t.as_str().is_empty() {
            SiteKind::Cabin
        } else if string_eq_lit(&t, "cabin") {
            SiteKind::Cabin
        } else if string_eq_lit(&t, "house") {
            SiteKind::House
        } else if string_eq_lit(&t, "flat") {
            SiteKind::Flat
        } else {
            SiteKind::Other(t)
        }
    }

    /// The display text of this kind.
    pub fn label(&self) -> (r: String)
        ensures
            r@ == label_spec(self@),
    {
        match self {
            SiteKind::Cabin => from_lit("Cabin"),
            SiteKind::Flat => from_lit("Flat"),
            SiteKind::House => from_lit("House"),
            SiteKind::Other(t) => t.clone(),
        }
    }

    /// Clone by structure, known to preserve the view.
    pub fn duplicate(&self) -> (r: SiteKind)
        ensures
            r@ == self@,
    {
        match self {
            SiteKind::Cabin => SiteKind::Cabin,
            SiteKind::Flat => SiteKind::Flat,
            SiteKind::House => SiteKind::House,
            SiteKind::Other(t) => SiteKind::Other(t.clone()),
        }
    }
}

impl Default for SiteKind {
    /// The default kind, used where no kind text was given.
    fn default() -> (r: SiteKind)
        ensures
            r@ == SiteKindView::Cabin,
    {
        SiteKind::Cabin
    }
}

/// Compare a string against a literal, character for character.
pub fn string_eq_lit(s: &String, lit: &str) -> (r: bool)
    ensures
        r == (s@ == lit@),
{
    let n = s.as_str().unicode_len();
    let m = lit.unicode_len();
    if n != m {
        assert(s@.len() != lit@.len());
        return false;
    }
    let mut i: usize = 0;
    while i < n
        invariant
            n == s@.len(),
            n == lit@.len(),
            0 <= i <= n,
            forall|j: int| 0 <= j < i ==> s@[j] == lit@[j],
        decreases n - i,
    {
        if s.as_str().get_char(i) != lit.get_char(i) {
            return false;
        }
        i = i + 1;
    }
    assert(s@ =~= lit@);
    true
}

/// Copy a literal into an owned `String`.
pub fn from_lit(lit: &str) -> (r: String)
    ensures
        r@ == lit@,
{
    String::from_str(lit)
}

/// The normalization laws, derived from the lower-casing facts: empty text
/// normalizes to the default; rendering a normalized kind back to text and
/// normalizing again gives the same kind; lower-casing the input first
/// changes nothing.
proof fn lemma_normalize_laws(s: Seq<char>)
    requires
        lower_of_props(),
    ensures
        (normalize_spec(s) matches SiteKindView::Other(t) ==> t.len() > 0),
        s.len() == 0 ==> normalize_spec(s) == SiteKindView::Cabin,
        normalize_spec(label_spec(normalize_spec(s))) == normalize_spec(s),
        normalize_spec(lower_of(s)) == normalize_spec(s),
{
    reveal_strlit("cabin");
    reveal_strlit("house");
    reveal_strlit("flat");
    reveal_strlit("Cabin");
    reveal_strlit("House");
    reveal_strlit("Flat");
    let t = lower_of(s);
    assert(lower_of(lower_of(s)) == lower_of(s));
    assert(lower_of(lower_of("Cabin"@)) == lower_of("Cabin"@));
    assert(lower_of(lower_of("House"@)) == lower_of("House"@));
    assert(lower_of(lower_of("Flat"@)) == lower_of("Flat"@));
    if t.len() == 0 || t == "cabin"@ {
        assert(normalize_spec("Cabin"@) == SiteKindView::Cabin);
    } else if t == "house"@ {
        assert(normalize_spec("House"@) == SiteKindView::House);
    } else if t == "flat"@ {
        assert(normalize_spec("Flat"@) == SiteKindView::Flat);
    } else {
        assert(normalize_spec(t) == SiteKindView::Other(t));
    }
}

} // verus!
