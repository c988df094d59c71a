//! The lease entry form: the five raw text fields of a lease request and
//! the edit/submit state machine. The checks themselves (existing site and
//! tenant, well-formed term) are the ledger's, run when the request is
//! dispatched.

use vstd::prelude::*;

verus! {

/// The fields of the lease form, all raw text: the keys of the site and
/// tenant to bind, and the three term fields.
#[derive(Clone, Debug, PartialEq, Eq)]
pub struct Model {
    pub site_number: String,
    pub tenant_name: String,
    pub start: String,
    pub duration: String,
    pub rent: String,
}

/// Mathematical image of [`Model`].
#[verifier::ext_equal]
pub struct ModelView {
    pub site_number: Seq<char>,
    pub tenant_name: Seq<char>,
    pub start: Seq<char>,
    pub duration: Seq<char>,
    pub rent: Seq<char>,
}

impl View for Model {
    type V = ModelView;

    open spec fn view(&self) -> ModelView {
        ModelView {
            site_number: self.site_number@,
            tenant_name: self.tenant_name@,
            start: self.start@,
            duration: self.duration@,
            rent: self.rent@,
        }
    }
}

/// The model after one field edit.
pub open spec fn apply_edit(m: ModelView, field: Field) -> ModelView {
    match field {
        Field::Site(v) => ModelView { site_number: v@, ..m },
        Field::Tenant(v) => ModelView { tenant_name: v@, ..m },
        Field::Start(v) => ModelView { start: v@, ..m },
        Field::Duration(v) => ModelView { duration: v@, ..m },
        Field::Rent(v) => ModelView { rent: v@, ..m },
    }
}

/// The blank form.
pub open spec fn blank_model(m: ModelView) -> bool {
    &&& m.site_number.len() == 0
    &&& m.tenant_name.len() == 0
    &&& m.start.len() == 0
    &&& m.duration.len() == 0
    &&& m.rent.len() == 0
}

impl Default for Model {
    /// The blank form.
    fn default() -> (r: Model)
        ensures
            blank_model(r@),
    {
        Model {
            site_number: String::new(),
            tenant_name: String::new(),
            start: String::new(),
            duration: String::new(),
            rent: String::new(),
        }
    }
}

/// One edit to a single field of the form.
pub enum Field {
    Site(String),
    Tenant(String),
    Start(String),
    Duration(String),
    Rent(String),
}

/// One user intent on the form.
pub enum Msg {
    Edit(Field),
    Submit,
    Nope,
}

/// The form state: just the model under edit.
pub struct Form {
    pub model: Model,
}

impl Form {
    /// A blank form.
    pub fn new() -> (r: Form)
        ensures
            blank_model(r.model@),
    {
        Form { model: Model::default() }
    }

    /// Apply one field edit.
    pub fn edit(&mut self, field: Field)
        ensures
            final(self).model@ == apply_edit(old(self).model@, field),
    {
        match field {
            Field::Site(v) => {
                self.model.site_number = v;
            },
            Field::Tenant(v) => {
                self.model.tenant_name = v;
            },
            Field::Start(v) => {
                self.model.start = v;
            },
            Field::Duration(v) => {
                self.model.duration = v;
            },
            Field::Rent(v) => {
                self.model.rent = v;
            },
        }
    }

    /// Submit the form: hand the request out and reset to blank.
    pub fn submit(&mut self) -> (r: Model)
        ensures
            r == old(self).model,
            blank_model(final(self).model@),
    {
        let mut taken = Model::default();
        core::mem::swap(&mut self.model, &mut taken);
        taken
    }

    /// Apply one user intent; the form always reports a render.
    pub fn update(&mut self, msg: Msg) -> (r: (Option<Model>, bool))
        ensures
            r.1,
            msg matches Msg::Edit(f) ==> r.0 is None && final(self).model@ == apply_edit(
                old(self).model@,
                f,
            ),
            msg is Nope ==> *final(self) == *old(self) && r.0 is None,
            msg is Submit ==> r.0 == Some(old(self).model) && blank_model(final(self).model@),
    {
        match msg {
            Msg::Edit(field) => {
                self.edit(field);
                (None, true)
            },
            Msg::Submit => {
                let emitted = self.submit();
                (Some(emitted), true)
            },
            Msg::Nope => (None, true),
        }
    }
}

} // verus!
