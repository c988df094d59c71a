//! Avisha: a small property-management ledger.
//!
//! The crate holds the domain core of a single-user rental ledger: tenants,
//! sites, and leases, the validation rules enforced on every mutation, and a
//! persistence codec that round-trips the whole ledger through a single text
//! blob. Presentation (forms, rendering, the storage backend itself) lives
//! outside the crate and talks to it through the command interface on
//! [`ledger::State`].

pub mod codec;
pub mod date;
pub mod kind;
pub mod lease_form;
pub mod ledger;
pub mod site_form;
pub mod tenant_form;
pub mod text;
pub mod validate;

pub use codec::{restore, store};
pub use kind::SiteKind;
pub use ledger::{Lease, Msg, Site, State, Tenant, Term};
pub use validate::{SiteValidator, TenantValidator, Validate};
