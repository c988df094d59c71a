//! The tenant registration form: its field model and the edit/submit state
//! machine, with edit-time suppression of the emptiness error.

use vstd::prelude::*;
use crate::validate::{
    FieldErrorView, FieldErrors, Validate, fe_has, lemma_remove_field_absent, remove_field,
};

verus! {

/// The fields of the tenant form.
#[derive(Clone, Debug, PartialEq, Eq)]
pub struct Model {
    pub name: String,
    pub contact: String,
}

/// Mathematical image of [`Model`].
#[verifier::ext_equal]
pub struct ModelView {
    pub name: Seq<char>,
    pub contact: Seq<char>,
}

impl View for Model {
    type V = ModelView;

    open spec fn view(&self) -> ModelView {
        ModelView { name: self.name@, contact: self.contact@ }
    }
}

impl Default for Model {
    /// The blank form.
    fn default() -> (r: Model)
        ensures
            r@.name.len() == 0,
            r@.contact.len() == 0,
    {
        Model { name: String::new(), contact: String::new() }
    }
}

/// One edit to a single field of the form.
pub enum Field {
    Name(String),
    Contact(String),
}

/// One user intent on the form.
pub enum Msg {
    Edit(Field),
    Submit,
    Nope,
}

/// The form state: the model under edit, the validator it is checked
/// against, and the errors currently shown.
pub struct Form<V: Validate<Model = Model>> {
    pub validator: V,
    pub model: Model,
    pub errors: FieldErrors,
}

/// The model after one field edit.
pub open spec fn apply_edit(m: ModelView, field: Field) -> ModelView {
    match field {
        Field::Name(v) => ModelView { name: v@, ..m },
        Field::Contact(v) => ModelView { contact: v@, ..m },
    }
}

/// The errors shown while a field is being edited: strict validation, with
/// the emptiness message for a still-empty name suppressed.
pub open spec fn edit_errors<V: Validate<Model = Model>>(v: V, m: Model) -> Seq<FieldErrorView> {
    if m.name@.len() == 0 {
        remove_field(v.spec_errors(&m), "name"@)
    } else {
        v.spec_errors(&m)
    }
}

impl<V: Validate<Model = Model>> Form<V> {
    /// A blank form over a validator.
    pub fn new(validator: V) -> (r: Form<V>)
        ensures
            r.validator == validator,
            r.model@.name.len() == 0,
            r.model@.contact.len() == 0,
            r.errors@.len() == 0,
    {
        Form { validator, model: Model::default(), errors: FieldErrors::empty() }
    }

    /// Run strict validation and show its errors.
    pub fn validate(&mut self)
        ensures
            final(self).validator == old(self).validator,
            final(self).model == old(self).model,
            final(self).errors@ == old(self).validator.spec_errors(&old(self).model),
    {
        match self.validator.validate(&self.model) {
            Err(es) => {
                self.errors = es;
            },
            Ok(()) => {
                self.errors.clear();
                proof {
                    assert(self.errors@ =~= self.validator.spec_errors(&self.model));
                }
            },
        }
    }

    /// Run validation for a form still under edit: an empty name shows no
    /// message yet, everything else stays visible.
    pub fn validate_edit(&mut self)
        ensures
            final(self).validator == old(self).validator,
            final(self).model == old(self).model,
            final(self).errors@ == edit_errors(old(self).validator, old(self).model),
            old(self).model.name@.len() == 0 ==> !fe_has(final(self).errors@, "name"@),
    {
        self.validate();
        if self.model.name.as_str().is_empty() {
            let ghost es = self.errors@;
            self.errors.remove("name");
            proof {
                lemma_remove_field_absent(es, "name"@);
            }
        }
    }

    /// Apply one field edit, then re-validate in edit mode.
    pub fn edit(&mut self, field: Field)
        ensures
            final(self).validator == old(self).validator,
            final(self).model@ == apply_edit(old(self).model@, field),
            final(self).errors@ == edit_errors(final(self).validator, final(self).model),
    {
        match field {
            Field::Name(v) => {
                self.model.name = v;
            },
            Field::Contact(v) => {
                self.model.contact = v;
            },
        }
        self.validate_edit();
    }

    /// Submit the form: on a clean model, hand it out and reset to blank;
    /// on a dirty one, keep it with its errors shown.
    pub fn submit(&mut self) -> (r: Option<Model>)
        ensures
            final(self).validator == old(self).validator,
            (r is Some) == (old(self).validator.spec_errors(&old(self).model).len() == 0),
            r matches Some(m) ==> m == old(self).model && final(self).model@.name.len() == 0
                && final(self).model@.contact.len() == 0 && final(self).errors@.len() == 0,
            r is None ==> final(self).model == old(self).model && final(self).errors@ == old(self).validator.spec_errors(&old(self).model),
    {
        self.validate();
        if self.errors.is_empty() {
            let mut taken = Model::default();
            core::mem::swap(&mut self.model, &mut taken);
            Some(taken)
        } else {
            None
        }
    }

    /// Apply one user intent; the render flag is false only for `Nope`, as
    /// the presentation layer expects.
    pub fn update(&mut self, msg: Msg) -> (r: (Option<Model>, bool))
        ensures
            final(self).validator == old(self).validator,
            msg matches Msg::Edit(f) ==> r.0 is None && r.1 && final(self).model@ == apply_edit(
                old(self).model@,
                f,
            ) && final(self).errors@ == edit_errors(final(self).validator, final(self).model),
            msg is Submit ==> r.1 && ((r.0 is Some) == (old(self).validator.spec_errors(
                &old(self).model,
            ).len() == 0)) && (r.0 matches Some(m) ==> m == old(self).model && final(self).model@.name.len() == 0 && final(self).model@.contact.len() == 0 && final(self).errors@.len() == 0) && (r.0 is None ==> final(self).model == old(self).model && final(self).errors@ == old(self).validator.spec_errors(&old(self).model)),
            msg is Nope ==> *final(self) == *old(self) && r.0 is None && !r.1,
    {
        match msg {
            Msg::Edit(field) => {
                self.edit(field);
                (None, true)
            },
            Msg::Submit => {
                let emitted = self.submit();
                (emitted, true)
            },
            Msg::Nope => (None, false),
        }
    }
}

} // verus!
