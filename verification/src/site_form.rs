//! The site listing form: its field model with the kind selector, and the
//! edit/submit state machine, with edit-time suppression of the emptiness
//! errors.

use vstd::prelude::*;
use crate::kind::{SiteKind, SiteKindView};
use crate::validate::{
    FieldErrorView, FieldErrors, Validate, fe_has, lemma_remove_field_absent, remove_field,
};

verus! {

/// The kind choice as the form holds it: a selector over the built-in
/// kinds, with `Other` carrying the free-text override under edit.
#[derive(Clone, Debug, PartialEq, Eq)]
pub enum Kind {
    Cabin,
    House,
    Flat,
    Other(String),
}

/// Mathematical image of [`Kind`].
pub enum KindView {
    Cabin,
    House,
    Flat,
    Other(Seq<char>),
}

impl View for Kind {
    type V = KindView;

    open spec fn view(&self) -> KindView {
        match self {
            Kind::Cabin => KindView::Cabin,
            Kind::House => KindView::House,
            Kind::Flat => KindView::Flat,
            Kind::Other(t) => KindView::Other(t@),
        }
    }
}

impl Kind {
    /// The ledger-side kind this choice stands for.
    pub fn into_site_kind(self) -> (r: SiteKind)
        ensures
            r@ == (match self@ {
                KindView::Cabin => SiteKindView::Cabin,
                KindView::House => SiteKindView::House,
                KindView::Flat => SiteKindView::Flat,
                KindView::Other(t) => SiteKindView::Other(t),
            }),
    {
        match self {
            Kind::Cabin => SiteKind::Cabin,
            Kind::House => SiteKind::House,
            Kind::Flat => SiteKind::Flat,
            Kind::Other(t) => SiteKind::Other(t),
        }
    }

    /// The raw text this choice submits to the ledger's normalization.
    pub fn as_text(&self) -> (r: String)
        ensures
            r@ == (match self@ {
                KindView::Cabin => "cabin"@,
                KindView::House => "house"@,
                KindView::Flat => "flat"@,
                KindView::Other(t) => t,
            }),
    {
        match self {
            Kind::Cabin => crate::kind::from_lit("cabin"),
            Kind::House => crate::kind::from_lit("house"),
            Kind::Flat => crate::kind::from_lit("flat"),
            Kind::Other(t) => t.clone(),
        }
    }
}

/// The fields of the site form.
#[derive(Clone, Debug, PartialEq, Eq)]
pub struct Model {
    pub number: String,
    pub kind: Kind,
}

/// Mathematical image of [`Model`].
#[verifier::ext_equal]
pub struct ModelView {
    pub number: Seq<char>,
    pub kind: KindView,
}

impl View for Model {
    type V = ModelView;

    open spec fn view(&self) -> ModelView {
        ModelView { number: self.number@, kind: self.kind@ }
    }
}

impl Default for Model {
    /// The blank form: no number, the default kind selected.
    fn default() -> (r: Model)
        ensures
            r@.number.len() == 0,
            r@.kind == KindView::Cabin,
    {
        Model { number: String::new(), kind: Kind::Cabin }
    }
}

/// One edit to a single field of the form.
pub enum Field {
    Number(String),
    Kind(Kind),
}

/// One user intent on the form.
pub enum Msg {
    Edit(Field),
    Submit,
    Nope,
}

/// The form state: the model under edit, the validator it is checked
/// against, and the errors currently shown.
pub struct Form<V: Validate<Model = Model>> {
    pub validator: V,
    pub model: Model,
    pub errors: FieldErrors,
}

/// The model after one field edit.
pub open spec fn apply_edit(m: ModelView, field: Field) -> ModelView {
    match field {
        Field::Number(v) => ModelView { number: v@, ..m },
        Field::Kind(k) => ModelView { kind: k@, ..m },
    }
}

/// Whether the kind under edit is `Other` with a still-empty label.
pub open spec fn kind_label_empty(m: Model) -> bool {
    m.kind@ matches KindView::Other(t) && t.len() == 0
}

/// The errors shown while a field is being edited: strict validation, with
/// the emptiness messages for a still-empty number or `Other` label
/// suppressed.
pub open spec fn edit_errors<V: Validate<Model = Model>>(v: V, m: Model) -> Seq<FieldErrorView> {
    let base = v.spec_errors(&m);
    let after_number: Seq<FieldErrorView> = if m.number@.len() == 0 {
        remove_field(base, "number"@)
    } else {
        base
    };
    if kind_label_empty(m) {
        remove_field(after_number, "kind"@)
    } else {
        after_number
    }
}

impl<V: Validate<Model = Model>> Form<V> {
    /// A blank form over a validator.
    pub fn new(validator: V) -> (r: Form<V>)
        ensures
            r.validator == validator,
            r.model@.number.len() == 0,
            r.model@.kind == KindView::Cabin,
            r.errors@.len() == 0,
    {
        Form { validator, model: Model::default(), errors: FieldErrors::empty() }
    }

    /// Run strict validation and show its errors.
    pub fn validate(&mut self)
        ensures
            final(self).validator == old(self).validator,
            final(self).model == old(self).model,
            final(self).errors@ == old(self).validator.spec_errors(&old(self).model),
    {
        match self.validator.validate(&self.model) {
            Err(es) => {
                self.errors = es;
            },
            Ok(()) => {
                self.errors.clear();
                proof {
                    assert(self.errors@ =~= self.validator.spec_errors(&self.model));
                }
            },
        }
    }

    /// Run validation for a form still under edit: an empty number or a
    /// still-empty `Other` label shows no message yet, everything else
    /// stays visible.
    pub fn validate_edit(&mut self)
        ensures
            final(self).validator == old(self).validator,
            final(self).model == old(self).model,
            final(self).errors@ == edit_errors(old(self).validator, old(self).model),
            old(self).model.number@.len() == 0 ==> !fe_has(final(self).errors@, "number"@),
            kind_label_empty(old(self).model) ==> !fe_has(final(self).errors@, "kind"@),
    {
        self.validate();
        if self.model.number.as_str().is_empty() {
            let ghost es = self.errors@;
            self.errors.remove("number");
            proof {
                lemma_remove_field_absent(es, "number"@);
            }
        }
        let label_empty = match &self.model.kind {
            Kind::Other(t) => t.as_str().is_empty(),
            _ => false,
        };
        if label_empty {
            let ghost es2 = self.errors@;
            self.errors.remove("kind");
            proof {
                lemma_remove_field_absent(es2, "kind"@);
                assert("kind"@ != "number"@) by {
                    reveal_strlit("kind");
                    reveal_strlit("number");
                    assert("kind"@.len() == 4);
                    assert("number"@.len() == 6);
                }
                if self.model.number@.len() == 0 {
                    crate::validate::lemma_remove_field_keeps_others(es2, "kind"@, "number"@);
                }
            }
        }
    }

    /// Apply one field edit, then re-validate in edit mode.
    pub fn edit(&mut self, field: Field)
        ensures
            final(self).validator == old(self).validator,
            final(self).model@ == apply_edit(old(self).model@, field),
            final(self).errors@ == edit_errors(final(self).validator, final(self).model),
    {
        match field {
            Field::Number(v) => {
                self.model.number = v;
            },
            Field::Kind(k) => {
                self.model.kind = k;
            },
        }
        self.validate_edit();
    }

    /// Submit the form: on a clean model, hand it out and reset to blank;
    /// on a dirty one, keep it with its errors shown.
    pub fn submit(&mut self) -> (r: Option<Model>)
        ensures
            final(self).validator == old(self).validator,
            (r is Some) == (old(self).validator.spec_errors(&old(self).model).len() == 0),
            r matches Some(m) ==> m == old(self).model && final(self).model@.number.len() == 0
                && final(self).model@.kind == KindView::Cabin && final(self).errors@.len() == 0,
            r is None ==> final(self).model == old(self).model && final(self).errors@ == old(self).validator.spec_errors(&old(self).model),
    {
        self.validate();
        if self.errors.is_empty() {
            let mut taken = Model::default();
            core::mem::swap(&mut self.model, &mut taken);
            Some(taken)
        } else {
            None
        }
    }

    /// Apply one user intent; the form always reports a render.
    pub fn update(&mut self, msg: Msg) -> (r: (Option<Model>, bool))
        ensures
            final(self).validator == old(self).validator,
            r.1,
            msg matches Msg::Edit(f) ==> r.0 is None && final(self).model@ == apply_edit(
                old(self).model@,
                f,
            ) && final(self).errors@ == edit_errors(final(self).validator, final(self).model),
            msg is Submit ==> ((r.0 is Some) == (old(self).validator.spec_errors(
                &old(self).model,
            ).len() == 0)) && (r.0 matches Some(m) ==> m == old(self).model && final(self).model@.number.len() == 0 && final(self).model@.kind == KindView::Cabin && final(self).errors@.len() == 0) && (r.0 is None ==> final(self).model == old(self).model && final(self).errors@ == old(self).validator.spec_errors(&old(self).model)),
            msg is Nope ==> *final(self) == *old(self) && r.0 is None,
    {
        match msg {
            Msg::Edit(field) => {
                self.edit(field);
                (None, true)
            },
            Msg::Submit => {
                let emitted = self.submit();
                (emitted, true)
            },
            Msg::Nope => (None, true),
        }
    }
}

} // verus!
