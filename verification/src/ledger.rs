//! The ledger: the authoritative in-memory store of tenants, sites and
//! leases, the error queue, and the four commands that are the only way to
//! mutate it. Every command is a single atomic transition described exactly
//! by a spec-level transition function.

use vstd::prelude::*;
use crate::date::{Date, parse_date, parse_date_spec};
use crate::kind::{SiteKind, SiteKindView, normalize_spec, from_lit};
use crate::text::{parse_u32, parse_u32_spec};

verus! {

/// A tenant; the name is the primary key.
#[derive(Clone, Debug, PartialEq, Eq)]
pub struct Tenant {
    pub name: String,
    pub contact: String,
}

/// Mathematical image of [`Tenant`].
#[verifier::ext_equal]
pub struct TenantView {
    pub name: Seq<char>,
    pub contact: Seq<char>,
}

impl View for Tenant {
    type V = TenantView;

    open spec fn view(&self) -> TenantView {
        TenantView { name: self.name@, contact: self.contact@ }
    }
}

/// A rental site; the number is the primary key.
#[derive(Clone, Debug, PartialEq, Eq)]
pub struct Site {
    pub number: String,
    pub kind: SiteKind,
}

/// Mathematical image of [`Site`].
#[verifier::ext_equal]
pub struct SiteView {
    pub number: Seq<char>,
    pub kind: SiteKindView,
}

impl View for Site {
    type V = SiteView;

    open spec fn view(&self) -> SiteView {
        SiteView { number: self.number@, kind: self.kind@ }
    }
}

/// The date-bounded term of a lease.
#[derive(Clone, Copy, PartialEq, Eq, Structural, Debug)]
pub struct Term {
    pub start: Date,
    pub duration: u32,
    pub rent: u32,
}

/// A lease binding one tenant to one site for a term.
#[derive(Clone, Debug, PartialEq, Eq)]
pub struct Lease {
    pub tenant_name: String,
    pub site_number: String,
    pub term: Term,
}

/// Mathematical image of [`Lease`].
#[verifier::ext_equal]
pub struct LeaseView {
    pub tenant_name: Seq<char>,
    pub site_number: Seq<char>,
    pub term: Term,
}

impl View for Lease {
    type V = LeaseView;

    open spec fn view(&self) -> LeaseView {
        LeaseView {
            tenant_name: self.tenant_name@,
            site_number: self.site_number@,
            term: self.term,
        }
    }
}

/// The whole ledger: tenants and sites in insertion order, leases as a
/// duplicate-free set in insertion order, and the queue of user-visible
/// error messages.
#[derive(Clone, Debug, PartialEq, Eq)]
pub struct State {
    pub tenants: Vec<Tenant>,
    pub sites: Vec<Site>,
    pub leases: Vec<Lease>,
    pub errors: Vec<String>,
}

/// Mathematical image of [`State`].
#[verifier::ext_equal]
pub struct StateView {
    pub tenants: Seq<TenantView>,
    pub sites: Seq<SiteView>,
    pub leases: Seq<LeaseView>,
    pub errors: Seq<Seq<char>>,
}

impl View for State {
    type V = StateView;

    open spec fn view(&self) -> StateView {
        StateView {
            tenants: self.tenants@.map_values(|t: Tenant| t@),
            sites: self.sites@.map_values(|s: Site| s@),
            leases: self.leases@.map_values(|l: Lease| l@),
            errors: self.errors@.map_values(|e: String| e@),
        }
    }
}

/// Whether some tenant in the sequence carries this name.
pub open spec fn tenant_named(ts: Seq<TenantView>, name: Seq<char>) -> bool {
    exists|i: int| 0 <= i < ts.len() && ts[i].name == name
}

/// Whether some site in the sequence carries this number.
pub open spec fn site_numbered(ss: Seq<SiteView>, number: Seq<char>) -> bool {
    exists|i: int| 0 <= i < ss.len() && ss[i].number == number
}

/// Whether the sequence holds this exact lease.
pub open spec fn lease_present(ls: Seq<LeaseView>, l: LeaseView) -> bool {
    exists|i: int| 0 <= i < ls.len() && ls[i] == l
}

impl StateView {
    /// The empty ledger.
    pub open spec fn empty() -> StateView {
        StateView {
            tenants: Seq::empty(),
            sites: Seq::empty(),
            leases: Seq::empty(),
            errors: Seq::empty(),
        }
    }

    /// Whether this name is already registered.
    pub open spec fn has_tenant(self, name: Seq<char>) -> bool {
        tenant_named(self.tenants, name)
    }

    /// Whether this number is already listed.
    pub open spec fn has_site(self, number: Seq<char>) -> bool {
        site_numbered(self.sites, number)
    }

    /// Whether this exact lease is already entered.
    pub open spec fn has_lease(self, l: LeaseView) -> bool {
        lease_present(self.leases, l)
    }

    /// The ledger invariant: keys are non-empty and unique, leases form a
    /// set referencing only listed sites and registered tenants, every
    /// `Other` kind carries a non-empty label, and every date is a real
    /// one.
    pub open spec fn wf(self) -> bool {
        &&& forall|i: int| 0 <= i < self.tenants.len() ==> (#[trigger] self.tenants[i]).name.len()
            > 0
        &&& forall|i: int, j: int|
            0 <= i < j < self.tenants.len() ==> self.tenants[i].name != self.tenants[j].name
        &&& forall|i: int| 0 <= i < self.sites.len() ==> (#[trigger] self.sites[i]).number.len() > 0
        &&& forall|i: int, j: int|
            0 <= i < j < self.sites.len() ==> self.sites[i].number != self.sites[j].number
        &&& forall|i: int|
            0 <= i < self.sites.len() ==> ((#[trigger] self.sites[i]).kind matches
            SiteKindView::Other(t) ==> t.len() > 0)
        &&& forall|i: int, j: int|
            0 <= i < j < self.leases.len() ==> self.leases[i] != self.leases[j]
        &&& forall|i: int| 0 <= i < self.leases.len() ==> (#[trigger] self.leases[i]).term.start.wf()
        &&& forall|i: int|
            0 <= i < self.leases.len() ==> site_numbered(
                self.sites,
                (#[trigger] self.leases[i]).site_number,
            )
        &&& forall|i: int|
            0 <= i < self.leases.len() ==> tenant_named(
                self.tenants,
                (#[trigger] self.leases[i]).tenant_name,
            )
    }
}

/// The transition for registering a tenant: an empty or taken name leaves
/// the ledger alone and queues the message saying so; otherwise the tenant
/// is appended.
pub open spec fn register_tenant_spec(v: StateView, name: Seq<char>, contact: Seq<char>) -> StateView {
    if name.len() == 0 {
        StateView { errors: v.errors.push("tenant name must be non-zero"@), ..v }
    } else if v.has_tenant(name) {
        StateView { errors: v.errors.push("tenant name must be unique"@), ..v }
    } else {
        StateView { tenants: v.tenants.push(TenantView { name, contact }), ..v }
    }
}

impl State {
    /// Register a tenant under its name, or queue the validation error.
    pub fn register_tenant(&mut self, name: String, contact: String)
        requires
            old(self)@.wf(),
        ensures
            final(self)@ == register_tenant_spec(old(self)@, name@, contact@),
            final(self)@.wf(),
    {
        let ghost v = self@;
        let ghost nv = name@;
        let ghost cv = contact@;
        if name.as_str().is_empty() {
            self.errors.push(from_lit("tenant name must be non-zero"));
            proof {
                assert(self@ =~= register_tenant_spec(v, nv, cv));
            }
        } else if tenant_name_taken(&self.tenants, &name) {
            self.errors.push(from_lit("tenant name must be unique"));
            proof {
                assert(self@ =~= register_tenant_spec(v, nv, cv));
            }
        } else {
            self.tenants.push(Tenant { name, contact });
            proof {
                assert(self@ =~= register_tenant_spec(v, nv, cv));
            }
        }
        proof {
            lemma_register_tenant_wf(v, nv, cv);
        }
    }
}

/// The transition for listing a site: an empty or taken number leaves the
/// ledger alone and queues the message saying so; otherwise the site is
/// appended with its kind text normalized.
pub open spec fn list_site_spec(v: StateView, number: Seq<char>, kind: Seq<char>) -> StateView {
    if number.len() == 0 {
        StateView { errors: v.errors.push("site number must be non-zero"@), ..v }
    } else if v.has_site(number) {
        StateView { errors: v.errors.push("site number must be unique"@), ..v }
    } else {
        StateView { sites: v.sites.push(SiteView { number, kind: normalize_spec(kind) }), ..v }
    }
}

/// The messages that a lease request earns, in field order; empty exactly
/// when every check passes.
pub open spec fn lease_errors_spec(
    v: StateView,
    site_number: Seq<char>,
    tenant_name: Seq<char>,
    start: Seq<char>,
    duration: Seq<char>,
    rent: Seq<char>,
) -> Seq<Seq<char>> {
    let e0: Seq<Seq<char>> = if v.has_site(site_number) {
        Seq::empty()
    } else {
        seq!["lease site must exist"@]
    };
    let e1: Seq<Seq<char>> = if v.has_tenant(tenant_name) {
        Seq::empty()
    } else {
        seq!["lease tenant must exist"@]
    };
    let e2: Seq<Seq<char>> = if parse_date_spec(start) is Some {
        Seq::empty()
    } else {
        seq!["lease start must be a date"@]
    };
    let e3: Seq<Seq<char>> = if parse_u32_spec(duration) matches Some(d) && d > 0 {
        Seq::empty()
    } else {
        seq!["lease duration must be a positive number"@]
    };
    let e4: Seq<Seq<char>> = if parse_u32_spec(rent) is Some {
        Seq::empty()
    } else {
        seq!["lease rent must be a number"@]
    };
    e0 + e1 + e2 + e3 + e4
}

/// The transition for entering a lease: a dangling site or tenant reference
/// or a malformed term field queues one message per failing check and leaves
/// the ledger alone; a lease equal on all fields to one already entered is
/// silently deduplicated; otherwise the lease is appended.
pub open spec fn lease_site_spec(
    v: StateView,
    site_number: Seq<char>,
    tenant_name: Seq<char>,
    start: Seq<char>,
    duration: Seq<char>,
    rent: Seq<char>,
) -> StateView {
    let errs = lease_errors_spec(v, site_number, tenant_name, start, duration, rent);
    if errs.len() == 0 {
        let l = LeaseView {
            tenant_name,
            site_number,
            term: Term {
                start: parse_date_spec(start)->0,
                duration: parse_u32_spec(duration)->0,
                rent: parse_u32_spec(rent)->0,
            },
        };
        if v.has_lease(l) {
            v
        } else {
            StateView { leases: v.leases.push(l), ..v }
        }
    } else {
        StateView { errors: v.errors + errs, ..v }
    }
}

/// The transition for dismissing an error: the entry at the index leaves the
/// queue and the rest keep their relative order; an index out of bounds
/// changes nothing.
pub open spec fn dismiss_error_spec(v: StateView, index: int) -> StateView {
    if 0 <= index < v.errors.len() {
        StateView { errors: v.errors.remove(index), ..v }
    } else {
        v
    }
}

impl State {
    /// List a site under its number, or queue the validation error.
    pub fn list_site(&mut self, number: String, kind: String)
        requires
            old(self)@.wf(),
        ensures
            final(self)@ == list_site_spec(old(self)@, number@, kind@),
            final(self)@.wf(),
    {
        let ghost v = self@;
        let ghost nv = number@;
        let ghost kv = kind@;
        if number.as_str().is_empty() {
            self.errors.push(from_lit("site number must be non-zero"));
            proof {
                assert(self@ =~= list_site_spec(v, nv, kv));
            }
        } else if site_number_taken(&self.sites, &number) {
            self.errors.push(from_lit("site number must be unique"));
            proof {
                assert(self@ =~= list_site_spec(v, nv, kv));
            }
        } else {
            let k = SiteKind::normalize(kind.as_str());
            self.sites.push(Site { number, kind: k });
            proof {
                assert(self@ =~= list_site_spec(v, nv, kv));
            }
        }
        proof {
            lemma_list_site_wf(v, nv, kv);
        }
    }

    /// Enter a lease binding a tenant to a site, or queue one message per
    /// failing check. Identical leases are deduplicated; whether a site may
    /// carry several differing leases is deliberately left open, as an
    /// append-only log.
    pub fn lease_site(
        &mut self,
        site_number: String,
        tenant_name: String,
        start: String,
        duration: String,
        rent: String,
    )
        requires
            old(self)@.wf(),
        ensures
            final(self)@ == lease_site_spec(
                old(self)@,
                site_number@,
                tenant_name@,
                start@,
                duration@,
                rent@,
            ),
            final(self)@.wf(),
    {
        let ghost v = self@;
        let ghost snv = site_number@;
        let ghost tnv = tenant_name@;
        let ghost stv = start@;
        let ghost duv = duration@;
        let ghost rev = rent@;
        let ghost errs = lease_errors_spec(v, snv, tnv, stv, duv, rev);
        let site_ok = site_number_taken(&self.sites, &site_number);
        let tenant_ok = tenant_name_taken(&self.tenants, &tenant_name);
        let date = parse_date(start.as_str());
        let dur = parse_u32(duration.as_str());
        let dur_ok = match dur {
            Some(d) => d > 0,
            None => false,
        };
        let rent_n = parse_u32(rent.as_str());
        if site_ok && tenant_ok && date.is_some() && dur_ok && rent_n.is_some() {
            assert(errs =~= Seq::<Seq<char>>::empty());
            let term = Term { start: date.unwrap(), duration: dur.unwrap(), rent: rent_n.unwrap() };
            let l = Lease { tenant_name, site_number, term };
            let ghost lv = l@;
            if lease_entered(&self.leases, &l) {
                assert(self@ =~= lease_site_spec(v, snv, tnv, stv, duv, rev));
            } else {
                self.leases.push(l);
                proof {
                    assert(self@ =~= lease_site_spec(v, snv, tnv, stv, duv, rev));
                }
            }
        } else {
            assert(errs.len() > 0);
            if !site_ok {
                self.errors.push(from_lit("lease site must exist"));
            }
            if !tenant_ok {
                self.errors.push(from_lit("lease tenant must exist"));
            }
            if date.is_none() {
                self.errors.push(from_lit("lease start must be a date"));
            }
            if !dur_ok {
                self.errors.push(from_lit("lease duration must be a positive number"));
            }
            if rent_n.is_none() {
                self.errors.push(from_lit("lease rent must be a number"));
            }
            proof {
                assert(self@.errors =~= v.errors + errs);
                assert(self@ =~= lease_site_spec(v, snv, tnv, stv, duv, rev));
            }
        }
        proof {
            lemma_lease_site_wf(v, snv, tnv, stv, duv, rev);
        }
    }

    /// Dismiss the error at this index; an index out of bounds is a no-op.
    pub fn dismiss_error(&mut self, index: usize)
        requires
            old(self)@.wf(),
        ensures
            final(self)@ == dismiss_error_spec(old(self)@, index as int),
            final(self)@.wf(),
    {
        let ghost v = self@;
        if index < self.errors.len() {
            self.errors.remove(index);
            proof {
                assert(self@ =~= dismiss_error_spec(v, index as int));
            }
        }
    }
}

/// One user intent, as the presentation layer raises it: every payload is
/// the raw text of the form fields.
pub enum Msg {
    RegisterTenant { name: String, contact: String },
    ListSite { number: String, kind: String },
    LeaseSite {
        site_number: String,
        tenant_name: String,
        start: String,
        duration: String,
        rent: String,
    },
    DismissErr(usize),
    Nope,
}

/// Mathematical image of [`Msg`].
pub enum MsgView {
    RegisterTenant { name: Seq<char>, contact: Seq<char> },
    ListSite { number: Seq<char>, kind: Seq<char> },
    LeaseSite {
        site_number: Seq<char>,
        tenant_name: Seq<char>,
        start: Seq<char>,
        duration: Seq<char>,
        rent: Seq<char>,
    },
    DismissErr(int),
    Nope,
}

impl View for Msg {
    type V = MsgView;

    open spec fn view(&self) -> MsgView {
        match self {
            Msg::RegisterTenant { name, contact } => MsgView::RegisterTenant {
                name: name@,
                contact: contact@,
            },
            Msg::ListSite { number, kind } => MsgView::ListSite { number: number@, kind: kind@ },
            Msg::LeaseSite { site_number, tenant_name, start, duration, rent } => MsgView::LeaseSite {
                site_number: site_number@,
                tenant_name: tenant_name@,
                start: start@,
                duration: duration@,
                rent: rent@,
            },
            Msg::DismissErr(i) => MsgView::DismissErr(*i as int),
            Msg::Nope => MsgView::Nope,
        }
    }
}

/// The transition that one command makes on the ledger.
pub open spec fn step_spec(v: StateView, m: MsgView) -> StateView {
    match m {
        MsgView::RegisterTenant { name, contact } => register_tenant_spec(v, name, contact),
        MsgView::ListSite { number, kind } => list_site_spec(v, number, kind),
        MsgView::LeaseSite { site_number, tenant_name, start, duration, rent } => lease_site_spec(
            v,
            site_number,
            tenant_name,
            start,
            duration,
            rent,
        ),
        MsgView::DismissErr(i) => dismiss_error_spec(v, i),
        MsgView::Nope => v,
    }
}

impl State {
    /// Apply one command; the ledger always reports a state change so that
    /// the caller's re-render stays unconditional.
    pub fn update(&mut self, msg: Msg) -> (render: bool)
        requires
            old(self)@.wf(),
        ensures
            final(self)@ == step_spec(old(self)@, msg@),
            final(self)@.wf(),
            render,
    {
        match msg {
            Msg::RegisterTenant { name, contact } => {
                self.register_tenant(name, contact);
            },
            Msg::ListSite { number, kind } => {
                self.list_site(number, kind);
            },
            Msg::LeaseSite { site_number, tenant_name, start, duration, rent } => {
                self.lease_site(site_number, tenant_name, start, duration, rent);
            },
            Msg::DismissErr(i) => {
                self.dismiss_error(i);
            },
            Msg::Nope => {},
        }
        true
    }


    /// Append one message to the visible error queue.
    pub fn push_error(&mut self, msg: String)
        requires
            old(self)@.wf(),
        ensures
            final(self)@ == (StateView { errors: old(self)@.errors.push(msg@), ..old(self)@ }),
            final(self)@.wf(),
    {
        let ghost v = self@;
        let ghost mv = msg@;
        self.errors.push(msg);
        proof {
            assert(self@ =~= (StateView { errors: v.errors.push(mv), ..v }));
        }
    }

    /// A read-only copy of the whole ledger for rendering.
    pub fn snapshot(&self) -> (r: State)
        ensures
            r@ == self@,
    {
        let r = State {
            tenants: clone_tenants(&self.tenants),
            sites: clone_sites(&self.sites),
            leases: clone_leases(&self.leases),
            errors: clone_strings(&self.errors),
        };
        proof {
            assert(r@ =~~= self@);
        }
        r
    }
}

/// Copy a tenant roll, preserving its view.
fn clone_tenants(v: &Vec<Tenant>) -> (r: Vec<Tenant>)
    ensures
        r@.map_values(|t: Tenant| t@) == v@.map_values(|t: Tenant| t@),
{
    let mut r: Vec<Tenant> = Vec::new();
    let mut i: usize = 0;
    while i < v.len()
        invariant
            0 <= i <= v@.len(),
            r@.len() == i,
            forall|j: int| 0 <= j < i ==> #[trigger] r@[j]@ == v@[j]@,
        decreases v@.len() - i,
    {
        r.push(Tenant { name: v[i].name.clone(), contact: v[i].contact.clone() });
        i = i + 1;
    }
    assert(r@.map_values(|t: Tenant| t@) =~~= v@.map_values(|t: Tenant| t@));
    r
}

/// Copy a site list, preserving its view.
fn clone_sites(v: &Vec<Site>) -> (r: Vec<Site>)
    ensures
        r@.map_values(|s: Site| s@) == v@.map_values(|s: Site| s@),
{
    let mut r: Vec<Site> = Vec::new();
    let mut i: usize = 0;
    while i < v.len()
        invariant
            0 <= i <= v@.len(),
            r@.len() == i,
            forall|j: int| 0 <= j < i ==> #[trigger] r@[j]@ == v@[j]@,
        decreases v@.len() - i,
    {
        r.push(Site { number: v[i].number.clone(), kind: v[i].kind.duplicate() });
        i = i + 1;
    }
    assert(r@.map_values(|s: Site| s@) =~~= v@.map_values(|s: Site| s@));
    r
}

/// Copy a lease log, preserving its view.
fn clone_leases(v: &Vec<Lease>) -> (r: Vec<Lease>)
    ensures
        r@.map_values(|l: Lease| l@) == v@.map_values(|l: Lease| l@),
{
    let mut r: Vec<Lease> = Vec::new();
    let mut i: usize = 0;
    while i < v.len()
        invariant
            0 <= i <= v@.len(),
            r@.len() == i,
            forall|j: int| 0 <= j < i ==> #[trigger] r@[j]@ == v@[j]@,
        decreases v@.len() - i,
    {
        r.push(
            Lease {
                tenant_name: v[i].tenant_name.clone(),
                site_number: v[i].site_number.clone(),
                term: v[i].term,
            },
        );
        i = i + 1;
    }
    assert(r@.map_values(|l: Lease| l@) =~~= v@.map_values(|l: Lease| l@));
    r
}

/// Copy a message queue, preserving its view.
fn clone_strings(v: &Vec<String>) -> (r: Vec<String>)
    ensures
        r@.map_values(|e: String| e@) == v@.map_values(|e: String| e@),
{
    let mut r: Vec<String> = Vec::new();
    let mut i: usize = 0;
    while i < v.len()
        invariant
            0 <= i <= v@.len(),
            r@.len() == i,
            forall|j: int| 0 <= j < i ==> #[trigger] r@[j]@ == v@[j]@,
        decreases v@.len() - i,
    {
        r.push(v[i].clone());
        i = i + 1;
    }
    assert(r@.map_values(|e: String| e@) =~~= v@.map_values(|e: String| e@));
    r
}

impl Default for State {
    /// The empty ledger.
    fn default() -> (r: State)
        ensures
            r@ == StateView::empty(),
            r@.wf(),
    {
        let r = State { tenants: Vec::new(), sites: Vec::new(), leases: Vec::new(), errors: Vec::new() };
        proof {
            assert(r@ =~= StateView::empty());
        }
        r
    }
}


/// Dismissing an error removes exactly the entry at the index: every entry
/// before it keeps its place, every entry after it moves up by one, and
/// their relative order is untouched.
pub proof fn lemma_dismiss_error_fifo(v: StateView, i: int)
    requires
        0 <= i < v.errors.len(),
    ensures
        dismiss_error_spec(v, i).errors.len() == v.errors.len() - 1,
        forall|j: int| 0 <= j < i ==> dismiss_error_spec(v, i).errors[j] == v.errors[j],
        forall|j: int|
            i <= j < v.errors.len() - 1 ==> dismiss_error_spec(v, i).errors[j] == v.errors[j + 1],
        dismiss_error_spec(v, i).tenants == v.tenants,
        dismiss_error_spec(v, i).sites == v.sites,
        dismiss_error_spec(v, i).leases == v.leases,
{
}

/// Well-formedness carries the uniqueness guarantee: a well-formed ledger
/// never holds two tenants with the same name, nor two sites with the same
/// number.
pub proof fn lemma_wf_names_unique(v: StateView)
    requires
        v.wf(),
    ensures
        forall|i: int, j: int|
            0 <= i < v.tenants.len() && 0 <= j < v.tenants.len() && i != j ==> v.tenants[i].name
                != v.tenants[j].name,
        forall|i: int, j: int|
            0 <= i < v.sites.len() && 0 <= j < v.sites.len() && i != j ==> v.sites[i].number
                != v.sites[j].number,
{
}

/// Every command preserves the ledger invariant: along any sequence of
/// commands from a well-formed ledger, every reached ledger is well-formed.
pub proof fn lemma_step_preserves_wf(v: StateView, m: MsgView)
    requires
        v.wf(),
    ensures
        step_spec(v, m).wf(),
{
    match m {
        MsgView::RegisterTenant { name, contact } => {
            lemma_register_tenant_wf(v, name, contact);
        },
        MsgView::ListSite { number, kind } => {
            lemma_list_site_wf(v, number, kind);
        },
        MsgView::LeaseSite { site_number, tenant_name, start, duration, rent } => {
            lemma_lease_site_wf(v, site_number, tenant_name, start, duration, rent);
        },
        MsgView::DismissErr(i) => {
        },
        MsgView::Nope => {},
    }
}


/// The ledger after a whole sequence of commands, applied in order.
pub open spec fn run_spec(v: StateView, ms: Seq<MsgView>) -> StateView
    decreases ms.len(),
{
    if ms.len() == 0 {
        v
    } else {
        run_spec(step_spec(v, ms.first()), ms.drop_first())
    }
}

/// Along any sequence of commands from a well-formed ledger — in
/// particular from the empty one — every ledger reached is well-formed, so
/// no two tenants ever share a name and no two sites ever share a number.
pub proof fn lemma_run_preserves_wf(v: StateView, ms: Seq<MsgView>)
    requires
        v.wf(),
    ensures
        run_spec(v, ms).wf(),
    decreases ms.len(),
{
    if ms.len() > 0 {
        lemma_step_preserves_wf(v, ms.first());
        lemma_run_preserves_wf(step_spec(v, ms.first()), ms.drop_first());
    }
}

/// A lease request naming a site that is not listed, or a tenant that is
/// not registered, creates no lease and changes nothing but the error
/// queue, which grows; together with the invariant, every lease a
/// well-formed ledger holds references a listed site and a registered
/// tenant.
pub proof fn lemma_lease_dangling_reference_rejected(
    v: StateView,
    site_number: Seq<char>,
    tenant_name: Seq<char>,
    start: Seq<char>,
    duration: Seq<char>,
    rent: Seq<char>,
)
    requires
        v.wf(),
        !v.has_site(site_number) || !v.has_tenant(tenant_name),
    ensures
        lease_site_spec(v, site_number, tenant_name, start, duration, rent).leases == v.leases,
        lease_site_spec(v, site_number, tenant_name, start, duration, rent).sites == v.sites,
        lease_site_spec(v, site_number, tenant_name, start, duration, rent).tenants == v.tenants,
        lease_site_spec(v, site_number, tenant_name, start, duration, rent).errors.len()
            > v.errors.len(),
{
    let errs = lease_errors_spec(v, site_number, tenant_name, start, duration, rent);
    assert(errs.len() >= 1);
}

/// A repeated registration leaves the tenant roll unchanged and queues
/// exactly the uniqueness message.
pub proof fn lemma_register_duplicate_rejected(v: StateView, name: Seq<char>, contact: Seq<char>)
    requires
        v.wf(),
        v.has_tenant(name),
    ensures
        register_tenant_spec(v, name, contact).tenants == v.tenants,
        register_tenant_spec(v, name, contact).errors == v.errors.push(
            "tenant name must be unique"@,
        ),
{
    assert(name.len() > 0) by {
        let i = choose|i: int| 0 <= i < v.tenants.len() && v.tenants[i].name == name;
        assert(v.tenants[i].name.len() > 0);
    }
}

/// A tenant found in a roll is still found after another tenant joins it.
proof fn lemma_tenant_named_push(ts: Seq<TenantView>, t: TenantView, name: Seq<char>)
    requires
        tenant_named(ts, name),
    ensures
        tenant_named(ts.push(t), name),
{
    let i = choose|i: int| 0 <= i < ts.len() && ts[i].name == name;
    assert(ts.push(t)[i].name == name);
}

/// A site found in a list is still found after another site joins it.
proof fn lemma_site_numbered_push(ss: Seq<SiteView>, t: SiteView, number: Seq<char>)
    requires
        site_numbered(ss, number),
    ensures
        site_numbered(ss.push(t), number),
{
    let i = choose|i: int| 0 <= i < ss.len() && ss[i].number == number;
    assert(ss.push(t)[i].number == number);
}

proof fn lemma_register_tenant_wf(v: StateView, name: Seq<char>, contact: Seq<char>)
    requires
        v.wf(),
    ensures
        register_tenant_spec(v, name, contact).wf(),
{
    let r = register_tenant_spec(v, name, contact);
    if name.len() > 0 && !v.has_tenant(name) {
        assert forall|i: int, j: int| 0 <= i < j < r.tenants.len() implies r.tenants[i].name
            != r.tenants[j].name by {
            if j == v.tenants.len() {
                assert(!tenant_named(v.tenants, name));
                assert(r.tenants[i] == v.tenants[i]);
            }
        }
        assert forall|i: int|
            0 <= i < r.leases.len() implies tenant_named(
                r.tenants,
                (#[trigger] r.leases[i]).tenant_name,
            ) by {
            assert(r.leases[i] == v.leases[i]);
            assert(tenant_named(v.tenants, v.leases[i].tenant_name));
            lemma_tenant_named_push(
                v.tenants,
                TenantView { name, contact },
                v.leases[i].tenant_name,
            );
        }
    }
}

proof fn lemma_list_site_wf(v: StateView, number: Seq<char>, kind: Seq<char>)
    requires
        v.wf(),
    ensures
        list_site_spec(v, number, kind).wf(),
{
    let r = list_site_spec(v, number, kind);
    if number.len() > 0 && !v.has_site(number) {
        assert forall|i: int, j: int| 0 <= i < j < r.sites.len() implies r.sites[i].number
            != r.sites[j].number by {
            if j == v.sites.len() {
                assert(!site_numbered(v.sites, number));
                assert(r.sites[i] == v.sites[i]);
            }
        }
        assert forall|i: int|
            0 <= i < r.leases.len() implies site_numbered(
                r.sites,
                (#[trigger] r.leases[i]).site_number,
            ) by {
            assert(r.leases[i] == v.leases[i]);
            assert(site_numbered(v.sites, v.leases[i].site_number));
            lemma_site_numbered_push(
                v.sites,
                SiteView { number, kind: normalize_spec(kind) },
                v.leases[i].site_number,
            );
        }
    }
}

proof fn lemma_lease_site_wf(
    v: StateView,
    site_number: Seq<char>,
    tenant_name: Seq<char>,
    start: Seq<char>,
    duration: Seq<char>,
    rent: Seq<char>,
)
    requires
        v.wf(),
    ensures
        lease_site_spec(v, site_number, tenant_name, start, duration, rent).wf(),
{
    let r = lease_site_spec(v, site_number, tenant_name, start, duration, rent);
    let errs = lease_errors_spec(v, site_number, tenant_name, start, duration, rent);
    if errs.len() == 0 {
        let l = LeaseView {
            tenant_name,
            site_number,
            term: Term {
                start: parse_date_spec(start)->0,
                duration: parse_u32_spec(duration)->0,
                rent: parse_u32_spec(rent)->0,
            },
        };
        assert(v.has_site(site_number)) by {
            if !v.has_site(site_number) {
                assert(errs.len() >= 1);
            }
        }
        assert(v.has_tenant(tenant_name)) by {
            if !v.has_tenant(tenant_name) {
                assert(errs.len() >= 1);
            }
        }
        if !v.has_lease(l) {
            assert forall|i: int, j: int| 0 <= i < j < r.leases.len() implies r.leases[i]
                != r.leases[j] by {
                if j == v.leases.len() {
                    assert(!lease_present(v.leases, l));
                    assert(r.leases[i] == v.leases[i]);
                }
            }
            assert forall|i: int|
                0 <= i < r.leases.len() implies site_numbered(
                    r.sites,
                    (#[trigger] r.leases[i]).site_number,
                ) && tenant_named(r.tenants, r.leases[i].tenant_name) by {
                if i < v.leases.len() {
                    assert(r.leases[i] == v.leases[i]);
                    assert(site_numbered(v.sites, v.leases[i].site_number));
                    assert(tenant_named(v.tenants, v.leases[i].tenant_name));
                }
            }
        }
    }
}

/// Decide whether a site with this number is present.
pub(crate) fn site_number_taken(sites: &Vec<Site>, number: &String) -> (r: bool)
    ensures
        r == site_numbered(sites@.map_values(|s: Site| s@), number@),
{
    let ghost ss = sites@.map_values(|s: Site| s@);
    let n = sites.len();
    let mut i: usize = 0;
    while i < n
        invariant
            n == sites@.len(),
            ss == sites@.map_values(|s: Site| s@),
            0 <= i <= n,
            forall|j: int| 0 <= j < i ==> ss[j].number != number@,
        decreases n - i,
    {
        if sites[i].number == *number {
            assert(ss[i as int].number == number@);
            return true;
        }
        i = i + 1;
    }
    false
}

/// Decide whether this exact lease is present.
fn lease_entered(leases: &Vec<Lease>, l: &Lease) -> (r: bool)
    ensures
        r == lease_present(leases@.map_values(|x: Lease| x@), l@),
{
    let ghost ls = leases@.map_values(|x: Lease| x@);
    let n = leases.len();
    let mut i: usize = 0;
    while i < n
        invariant
            n == leases@.len(),
            ls == leases@.map_values(|x: Lease| x@),
            0 <= i <= n,
            forall|j: int| 0 <= j < i ==> ls[j] != l@,
        decreases n - i,
    {
        if lease_eq(&leases[i], l) {
            assert(ls[i as int] == l@);
            return true;
        }
        assert(ls[i as int] != l@);
        i = i + 1;
    }
    false
}

/// Decide equality of two terms by their fields.
fn term_eq(a: &Term, b: &Term) -> (r: bool)
    ensures
        r == (a == b),
{
    let r = a.start.year == b.start.year && a.start.month == b.start.month && a.start.day
        == b.start.day && a.duration == b.duration && a.rent == b.rent;
    r
}


/// Decide equality of two leases by their fields.
fn lease_eq(a: &Lease, b: &Lease) -> (r: bool)
    ensures
        r == (a@ == b@),
{
    let r = a.tenant_name == b.tenant_name && a.site_number == b.site_number && term_eq(
        &a.term,
        &b.term,
    );
    proof {
        if r {
            assert(a@ =~= b@);
        }
    }
    r
}

impl State {
    /// Decide the ledger invariant on this value, field by field.
    pub fn check_wf(&self) -> (b: bool)
        ensures
            b == self@.wf(),
    {
        let ghost v = self@;

        let n = self.tenants.len();
        let mut i: usize = 0;
        while i < n
            invariant
                n == self.tenants@.len(),
                v == self@,
                0 <= i <= n,
                forall|k: int| 0 <= k < i ==> (#[trigger] v.tenants[k]).name.len() > 0,
                forall|a: int, b: int|
                    0 <= a < b < i ==> v.tenants[a].name != v.tenants[b].name,
            decreases n - i,
        {
            if self.tenants[i].name.as_str().is_empty() {
                assert(v.tenants[i as int].name.len() == 0);
                return false;
            }
            let mut j: usize = 0;
            while j < i
                invariant
                    n == self.tenants@.len(),
                    v == self@,
                    0 <= j <= i < n,
                    forall|a: int| 0 <= a < j ==> v.tenants[a].name != v.tenants[i as int].name,
                decreases i - j,
            {
                if self.tenants[j].name == self.tenants[i].name {
                    assert(v.tenants[j as int].name == v.tenants[i as int].name);
                    return false;
                }
                j = j + 1;
            }
            i = i + 1;
        }

        let n = self.sites.len();
        let mut i: usize = 0;
        while i < n
            invariant
                n == self.sites@.len(),
                v == self@,
                0 <= i <= n,
                forall|k: int| 0 <= k < i ==> (#[trigger] v.sites[k]).number.len() > 0,
                forall|a: int, b: int|
                    0 <= a < b < i ==> v.sites[a].number != v.sites[b].number,
                forall|k: int|
                    0 <= k < i ==> ((#[trigger] v.sites[k]).kind matches SiteKindView::Other(t)
                        ==> t.len() > 0),
            decreases n - i,
        {
            if self.sites[i].number.as_str().is_empty() {
                assert(v.sites[i as int].number.len() == 0);
                return false;
            }
            match &self.sites[i].kind {
                SiteKind::Other(t) => {
                    if t.as_str().is_empty() {
                        assert(v.sites[i as int].kind matches SiteKindView::Other(p) && p.len()
                            == 0);
                        return false;
                    }
                },
                _ => {},
            }
            let mut j: usize = 0;
            while j < i
                invariant
                    n == self.sites@.len(),
                    v == self@,
                    0 <= j <= i < n,
                    forall|a: int| 0 <= a < j ==> v.sites[a].number != v.sites[i as int].number,
                decreases i - j,
            {
                if self.sites[j].number == self.sites[i].number {
                    assert(v.sites[j as int].number == v.sites[i as int].number);
                    return false;
                }
                j = j + 1;
            }
            i = i + 1;
        }

        let n = self.leases.len();
        let mut i: usize = 0;
        while i < n
            invariant
                n == self.leases@.len(),
                v == self@,
                0 <= i <= n,
                forall|k: int| 0 <= k < i ==> (#[trigger] v.leases[k]).term.start.wf(),
                forall|k: int|
                    0 <= k < i ==> site_numbered(v.sites, (#[trigger] v.leases[k]).site_number),
                forall|k: int|
                    0 <= k < i ==> tenant_named(v.tenants, (#[trigger] v.leases[k]).tenant_name),
                forall|a: int, b: int| 0 <= a < b < i ==> v.leases[a] != v.leases[b],
            decreases n - i,
        {
            let t = &self.leases[i].term;
            if !crate::date::check_date(t.start.year, t.start.month, t.start.day) {
                assert(!v.leases[i as int].term.start.wf());
                return false;
            }
            if !site_number_taken(&self.sites, &self.leases[i].site_number) {
                assert(!site_numbered(v.sites, v.leases[i as int].site_number));
                return false;
            }
            if !tenant_name_taken(&self.tenants, &self.leases[i].tenant_name) {
                assert(!tenant_named(v.tenants, v.leases[i as int].tenant_name));
                return false;
            }
            let mut j: usize = 0;
            while j < i
                invariant
                    n == self.leases@.len(),
                    v == self@,
                    0 <= j <= i < n,
                    forall|a: int| 0 <= a < j ==> v.leases[a] != v.leases[i as int],
                decreases i - j,
            {
                if lease_eq(&self.leases[j], &self.leases[i]) {
                    assert(v.leases[j as int] == v.leases[i as int]);
                    return false;
                }
                j = j + 1;
            }
            i = i + 1;
        }

        true
    }
}

/// Decide whether a tenant with this name is present.
pub(crate) fn tenant_name_taken(tenants: &Vec<Tenant>, name: &String) -> (r: bool)
    ensures
        r == tenant_named(tenants@.map_values(|t: Tenant| t@), name@),
{
    let ghost ts = tenants@.map_values(|t: Tenant| t@);
    let n = tenants.len();
    let mut i: usize = 0;
    while i < n
        invariant
            n == tenants@.len(),
            ts == tenants@.map_values(|t: Tenant| t@),
            0 <= i <= n,
            forall|j: int| 0 <= j < i ==> ts[j].name != name@,
        decreases n - i,
    {
        if tenants[i].name == *name {
            assert(ts[i as int].name == name@);
            return true;
        }
        i = i + 1;
    }
    false
}

} // verus!
