//! Field-level validation: a mapping from form field names to a single
//! human-readable message each, the validator capability the forms are
//! parametrized over, and the two validators the ledger's entities need.

use vstd::prelude::*;
use crate::kind::from_lit;
use crate::ledger::{Site, Tenant, site_numbered, tenant_named};

verus! {

/// One field error: a field name and the message shown beside the field.
pub struct FieldError {
    pub field: String,
    pub message: String,
}

/// Mathematical image of [`FieldError`].
#[verifier::ext_equal]
pub struct FieldErrorView {
    pub field: Seq<char>,
    pub message: Seq<char>,
}

impl View for FieldError {
    type V = FieldErrorView;

    open spec fn view(&self) -> FieldErrorView {
        FieldErrorView { field: self.field@, message: self.message@ }
    }
}

/// The field errors of one validation pass, in the order the rules ran;
/// a later rule for the same field wins by standing later in the list.
pub struct FieldErrors {
    pub entries: Vec<FieldError>,
}

impl View for FieldErrors {
    type V = Seq<FieldErrorView>;

    open spec fn view(&self) -> Seq<FieldErrorView> {
        self.entries@.map_values(|e: FieldError| e@)
    }
}

/// Whether some entry carries this field name.
pub open spec fn fe_has(es: Seq<FieldErrorView>, f: Seq<char>) -> bool {
    exists|i: int| 0 <= i < es.len() && es[i].field == f
}

/// The message shown for a field: the last entry with that name wins.
pub open spec fn fe_msg(es: Seq<FieldErrorView>, f: Seq<char>) -> Option<Seq<char>>
    decreases es.len(),
{
    if es.len() == 0 {
        None
    } else if es.last().field == f {
        Some(es.last().message)
    } else {
        fe_msg(es.drop_last(), f)
    }
}

/// The entries left after every entry for one field is removed.
pub open spec fn remove_field(es: Seq<FieldErrorView>, f: Seq<char>) -> Seq<FieldErrorView>
    decreases es.len(),
{
    if es.len() == 0 {
        es
    } else {
        let rest = remove_field(es.drop_last(), f);
        if es.last().field == f {
            rest
        } else {
            rest.push(es.last())
        }
    }
}

/// After removal, no entry carries the removed field name.
pub proof fn lemma_remove_field_absent(es: Seq<FieldErrorView>, f: Seq<char>)
    ensures
        !fe_has(remove_field(es, f), f),
    decreases es.len(),
{
    if es.len() > 0 {
        lemma_remove_field_absent(es.drop_last(), f);
        let rest = remove_field(es.drop_last(), f);
        if es.last().field != f {
            assert forall|i: int|
                0 <= i < rest.push(es.last()).len() implies rest.push(es.last())[i].field
                != f by {
                if i < rest.len() {
                    assert(!fe_has(rest, f));
                    assert(rest[i].field != f);
                }
            }
        }
    }
}

/// Removal keeps every entry for the other fields, in order.
pub proof fn lemma_remove_field_keeps_others(es: Seq<FieldErrorView>, f: Seq<char>, g: Seq<char>)
    requires
        g != f,
    ensures
        fe_has(remove_field(es, f), g) == fe_has(es, g),
    decreases es.len(),
{
    if es.len() > 0 {
        lemma_remove_field_keeps_others(es.drop_last(), f, g);
        let rest = remove_field(es.drop_last(), f);
        let dl = es.drop_last();
        assert(fe_has(dl, g) ==> fe_has(es, g)) by {
            if fe_has(dl, g) {
                let i = choose|i: int| 0 <= i < dl.len() && dl[i].field == g;
                assert(es[i].field == g);
            }
        }
        if es.last().field == f {
            if fe_has(es, g) {
                let i = choose|i: int| 0 <= i < es.len() && es[i].field == g;
                assert(i < es.len() - 1);
                assert(dl[i].field == g);
            }
        } else {
            if es.last().field == g {
                assert(rest.push(es.last()).last().field == g);
                assert(fe_has(remove_field(es, f), g));
                assert(es[es.len() - 1].field == g);
            } else {
                if fe_has(es, g) && !fe_has(dl, g) {
                    let i = choose|i: int| 0 <= i < es.len() && es[i].field == g;
                    assert(i == es.len() - 1 || dl[i].field == g);
                }
                if fe_has(rest.push(es.last()), g) && !fe_has(rest, g) {
                    let i = choose|i: int|
                        0 <= i < rest.push(es.last()).len() && rest.push(es.last())[i].field == g;
                    assert(i == rest.len() || rest[i].field == g);
                }
                if fe_has(rest, g) {
                    let i = choose|i: int| 0 <= i < rest.len() && rest[i].field == g;
                    assert(rest.push(es.last())[i].field == g);
                }
            }
        }
    }
}

impl FieldErrors {
    /// No errors.
    pub fn empty() -> (r: FieldErrors)
        ensures
            r@ == Seq::<FieldErrorView>::empty(),
    {
        let r = FieldErrors { entries: Vec::new() };
        proof {
            assert(r@ =~= Seq::<FieldErrorView>::empty());
        }
        r
    }

    /// Whether no field is in error.
    pub fn is_empty(&self) -> (b: bool)
        ensures
            b == (self@.len() == 0),
    {
        self.entries.len() == 0
    }

    /// Record a message for a field.
    pub fn add(&mut self, field: &str, message: &str)
        ensures
            final(self)@ == old(self)@.push(
                FieldErrorView { field: field@, message: message@ },
            ),
    {
        self.entries.push(FieldError { field: from_lit(field), message: from_lit(message) });
        proof {
            assert(self@ =~= old(self)@.push(FieldErrorView { field: field@, message: message@ }));
        }
    }

    /// The message shown for a field, if any; the last entry wins.
    pub fn get(&self, field: &str) -> (r: Option<&String>)
        ensures
            (r is Some) == (fe_msg(self@, field@) is Some),
            r matches Some(m) ==> fe_msg(self@, field@) == Some(m@),
    {
        let n = self.entries.len();
        proof {
            assert(self@.subrange(0, n as int) =~= self@);
        }
        let mut i: usize = n;
        while i > 0
            invariant
                n == self.entries@.len(),
                0 <= i <= n,
                fe_msg(self@, field@) == fe_msg(self@.subrange(0, i as int), field@),
            decreases i,
        {
            let ghost pre = self@.subrange(0, i as int);
            proof {
                assert(pre.last() == self@[i - 1]);
                assert(pre.drop_last() =~= self@.subrange(0, i - 1));
            }
            if crate::kind::string_eq_lit(&self.entries[i - 1].field, field) {
                return Some(&self.entries[i - 1].message);
            }
            i = i - 1;
        }
        proof {
            assert(self@.subrange(0, 0) =~= Seq::<FieldErrorView>::empty());
        }
        None
    }

    /// Drop every entry for one field, keeping the rest in order.
    pub fn remove(&mut self, field: &str)
        ensures
            final(self)@ == remove_field(old(self)@, field@),
    {
        let n = self.entries.len();
        let mut kept: Vec<FieldError> = Vec::new();
        let mut i: usize = 0;
        while i < n
            invariant
                n == self.entries@.len(),
                self@ == old(self)@,
                0 <= i <= n,
                kept@.map_values(|e: FieldError| e@) == remove_field(
                    self@.subrange(0, i as int),
                    field@,
                ),
            decreases n - i,
        {
            let ghost pre = self@.subrange(0, i as int);
            let ghost post = self@.subrange(0, i as int + 1);
            proof {
                assert(post.last() == self@[i as int]);
                assert(post.drop_last() =~= pre);
            }
            if !crate::kind::string_eq_lit(&self.entries[i].field, field) {
                let e = &self.entries[i];
                kept.push(FieldError { field: e.field.clone(), message: e.message.clone() });
                proof {
                    assert(kept@.map_values(|e: FieldError| e@) =~= remove_field(post, field@));
                }
            } else {
                proof {
                    assert(kept@.map_values(|e: FieldError| e@) =~= remove_field(post, field@));
                }
            }
            i = i + 1;
        }
        proof {
            assert(self@.subrange(0, n as int) =~= self@);
        }
        self.entries = kept;
    }

    /// Drop every entry.
    pub fn clear(&mut self)
        ensures
            final(self)@ == Seq::<FieldErrorView>::empty(),
    {
        self.entries = Vec::new();
        proof {
            assert(self@ =~= Seq::<FieldErrorView>::empty());
        }
    }
}

/// The capability the forms are parametrized over: deciding a proposed
/// model against current state, with the exact errors pinned by
/// `spec_errors`.
pub trait Validate: Sized {
    type Model;

    /// The exact field errors this validator assigns to a model.
    spec fn spec_errors(&self, m: &Self::Model) -> Seq<FieldErrorView>;

    /// Check a model: `Ok` exactly when no rule fails, else the full error
    /// list.
    fn validate(&self, m: &Self::Model) -> (r: Result<(), FieldErrors>)
        ensures
            (r is Ok) == (self.spec_errors(m).len() == 0),
            (r matches Err(es) ==> es@ == self.spec_errors(m)),
    ;
}

/// Validates a proposed tenant against the current tenant roll.
pub struct TenantValidator {
    pub tenants: Vec<Tenant>,
}

impl Validate for TenantValidator {
    type Model = crate::tenant_form::Model;

    /// An already-registered name earns "must be unique" (the later rule
    /// wins over the emptiness rule); an empty name earns "must be
    /// non-zero"; otherwise the model is clean.
    open spec fn spec_errors(&self, m: &crate::tenant_form::Model) -> Seq<FieldErrorView> {
        let ts = self.tenants@.map_values(|t: Tenant| t@);
        if tenant_named(ts, m.name@) {
            seq![FieldErrorView { field: "name"@, message: "must be unique"@ }]
        } else if m.name@.len() == 0 {
            seq![FieldErrorView { field: "name"@, message: "must be non-zero"@ }]
        } else {
            Seq::empty()
        }
    }

    fn validate(&self, m: &crate::tenant_form::Model) -> (r: Result<(), FieldErrors>) {
        let mut errors = FieldErrors::empty();
        let empty = m.name.as_str().is_empty();
        let taken = crate::ledger::tenant_name_taken(&self.tenants, &m.name);
        if taken {
            errors.add("name", "must be unique");
        } else if empty {
            errors.add("name", "must be non-zero");
        }
        if taken || empty {
            proof {
                assert(errors@ =~= self.spec_errors(m));
            }
            Err(errors)
        } else {
            Ok(())
        }
    }
}

/// Validates a proposed site against the current site list.
pub struct SiteValidator {
    pub sites: Vec<Site>,
}

impl Validate for SiteValidator {
    type Model = crate::site_form::Model;

    /// The number field follows the same rules as a tenant name; an
    /// `Other` kind with an empty label earns its own "must be non-zero".
    open spec fn spec_errors(&self, m: &crate::site_form::Model) -> Seq<FieldErrorView> {
        let ss = self.sites@.map_values(|s: Site| s@);
        let number_errs: Seq<FieldErrorView> = if site_numbered(ss, m.number@) {
            seq![FieldErrorView { field: "number"@, message: "must be unique"@ }]
        } else if m.number@.len() == 0 {
            seq![FieldErrorView { field: "number"@, message: "must be non-zero"@ }]
        } else {
            Seq::empty()
        };
        let kind_errs: Seq<FieldErrorView> = if m.kind@ matches crate::site_form::KindView::Other(
            t,
        ) && t.len() == 0 {
            seq![FieldErrorView { field: "kind"@, message: "must be non-zero"@ }]
        } else {
            Seq::empty()
        };
        number_errs + kind_errs
    }

    fn validate(&self, m: &crate::site_form::Model) -> (r: Result<(), FieldErrors>) {
        let mut errors = FieldErrors::empty();
        let empty = m.number.as_str().is_empty();
        let taken = crate::ledger::site_number_taken(&self.sites, &m.number);
        if taken {
            errors.add("number", "must be unique");
        } else if empty {
            errors.add("number", "must be non-zero");
        }
        let kind_bad = match &m.kind {
            crate::site_form::Kind::Other(t) => t.as_str().is_empty(),
            _ => false,
        };
        if kind_bad {
            errors.add("kind", "must be non-zero");
        }
        if taken || empty || kind_bad {
            proof {
                assert(errors@ =~= self.spec_errors(m));
            }
            Err(errors)
        } else {
            proof {
                assert(self.spec_errors(m) =~= Seq::<FieldErrorView>::empty());
            }
            Ok(())
        }
    }
}

} // verus!
