use avisha::date::Date;
use avisha::ledger::{Msg, State};
use avisha::SiteKind;

fn s(x: &str) -> String {
    String::from(x)
}

#[test]
fn register_tenant_stores_name_and_contact() {
    let mut st = State::default();
    st.register_tenant(s("Alice"), s("alice@x.com"));
    assert_eq!(st.tenants.len(), 1);
    assert_eq!(st.tenants[0].name, "Alice");
    assert_eq!(st.tenants[0].contact, "alice@x.com");
    assert!(st.errors.is_empty());
}

#[test]
fn duplicate_tenant_is_rejected_with_unique_error() {
    let mut st = State::default();
    st.register_tenant(s("Alice"), s("alice@x.com"));
    st.register_tenant(s("Alice"), s("other@x.com"));
    assert_eq!(st.tenants.len(), 1);
    assert_eq!(st.tenants[0].contact, "alice@x.com");
    assert_eq!(st.errors.len(), 1);
    assert_eq!(st.errors[0], "tenant name must be unique");
}

#[test]
fn empty_tenant_name_is_rejected_with_non_zero_error() {
    let mut st = State::default();
    st.register_tenant(s(""), s("x@y.z"));
    assert!(st.tenants.is_empty());
    assert_eq!(st.errors, vec![s("tenant name must be non-zero")]);
}

#[test]
fn list_site_normalizes_kind() {
    let mut st = State::default();
    st.list_site(s("12"), s("cabin"));
    assert_eq!(st.sites.len(), 1);
    assert_eq!(st.sites[0].number, "12");
    assert_eq!(st.sites[0].kind, SiteKind::Cabin);
}

#[test]
fn duplicate_site_number_is_rejected() {
    let mut st = State::default();
    st.list_site(s("12"), s("cabin"));
    st.list_site(s("12"), s(""));
    assert_eq!(st.sites.len(), 1);
    assert_eq!(st.errors, vec![s("site number must be unique")]);
}

#[test]
fn empty_site_number_is_rejected() {
    let mut st = State::default();
    st.list_site(s(""), s("house"));
    assert!(st.sites.is_empty());
    assert_eq!(st.errors, vec![s("site number must be non-zero")]);
}

#[test]
fn empty_kind_text_defaults_to_cabin() {
    let mut st = State::default();
    st.list_site(s("7"), s(""));
    assert_eq!(st.sites[0].kind, SiteKind::Cabin);
}

#[test]
fn free_text_kind_is_kept_lowercased() {
    let mut st = State::default();
    st.list_site(s("8"), s("TeePee"));
    assert_eq!(st.sites[0].kind, SiteKind::Other(s("teepee")));
}

#[test]
fn lease_site_records_the_parsed_term() {
    let mut st = State::default();
    st.register_tenant(s("Alice"), s("alice@x.com"));
    st.list_site(s("12"), s("cabin"));
    st.lease_site(s("12"), s("Alice"), s("2024-01-01"), s("14"), s("500"));
    assert!(st.errors.is_empty());
    assert_eq!(st.leases.len(), 1);
    let l = &st.leases[0];
    assert_eq!(l.tenant_name, "Alice");
    assert_eq!(l.site_number, "12");
    assert_eq!(l.term.start, Date { year: 2024, month: 1, day: 1 });
    assert_eq!(l.term.duration, 14);
    assert_eq!(l.term.rent, 500);
}

#[test]
fn identical_leases_are_deduplicated() {
    let mut st = State::default();
    st.register_tenant(s("Alice"), s("alice@x.com"));
    st.list_site(s("12"), s("cabin"));
    st.lease_site(s("12"), s("Alice"), s("2024-01-01"), s("14"), s("500"));
    st.lease_site(s("12"), s("Alice"), s("2024-01-01"), s("14"), s("500"));
    assert_eq!(st.leases.len(), 1);
    assert!(st.errors.is_empty());
}

#[test]
fn lease_on_missing_site_reports_and_keeps_state() {
    let mut st = State::default();
    st.register_tenant(s("Alice"), s("alice@x.com"));
    st.lease_site(s("99"), s("Alice"), s("2024-01-01"), s("14"), s("500"));
    assert!(st.leases.is_empty());
    assert_eq!(st.errors, vec![s("lease site must exist")]);
}

#[test]
fn lease_on_missing_tenant_reports() {
    let mut st = State::default();
    st.list_site(s("12"), s("cabin"));
    st.lease_site(s("12"), s("Bob"), s("2024-01-01"), s("14"), s("500"));
    assert!(st.leases.is_empty());
    assert_eq!(st.errors, vec![s("lease tenant must exist")]);
}

#[test]
fn malformed_term_fields_each_report() {
    let mut st = State::default();
    st.register_tenant(s("Alice"), s("alice@x.com"));
    st.list_site(s("12"), s("cabin"));
    st.lease_site(s("12"), s("Alice"), s("2024-13-01"), s("two"), s(""));
    assert!(st.leases.is_empty());
    assert_eq!(
        st.errors,
        vec![
            s("lease start must be a date"),
            s("lease duration must be a positive number"),
            s("lease rent must be a number"),
        ]
    );
}

#[test]
fn all_lease_checks_report_together() {
    let mut st = State::default();
    st.lease_site(s("9"), s("Nobody"), s("never"), s("-1"), s("x"));
    assert_eq!(st.errors.len(), 5);
    assert_eq!(st.errors[0], "lease site must exist");
    assert_eq!(st.errors[1], "lease tenant must exist");
    assert_eq!(st.errors[2], "lease start must be a date");
    assert_eq!(st.errors[3], "lease duration must be a positive number");
    assert_eq!(st.errors[4], "lease rent must be a number");
}

#[test]
fn zero_duration_is_rejected() {
    let mut st = State::default();
    st.register_tenant(s("Alice"), s("alice@x.com"));
    st.list_site(s("12"), s("cabin"));
    st.lease_site(s("12"), s("Alice"), s("2024-01-01"), s("0"), s("500"));
    assert!(st.leases.is_empty());
    assert_eq!(st.errors, vec![s("lease duration must be a positive number")]);
}

#[test]
fn zero_rent_is_accepted() {
    let mut st = State::default();
    st.register_tenant(s("Alice"), s("alice@x.com"));
    st.list_site(s("12"), s("cabin"));
    st.lease_site(s("12"), s("Alice"), s("2024-01-01"), s("7"), s("0"));
    assert!(st.errors.is_empty());
    assert_eq!(st.leases[0].term.rent, 0);
}

#[test]
fn dismiss_error_removes_exactly_one_and_keeps_order() {
    let mut st = State::default();
    st.register_tenant(s(""), s(""));
    st.list_site(s(""), s(""));
    st.register_tenant(s(""), s(""));
    assert_eq!(st.errors.len(), 3);
    st.dismiss_error(1);
    assert_eq!(
        st.errors,
        vec![s("tenant name must be non-zero"), s("tenant name must be non-zero")]
    );
}

#[test]
fn dismiss_error_out_of_bounds_is_a_no_op() {
    let mut st = State::default();
    st.register_tenant(s(""), s(""));
    let before = st.clone();
    st.dismiss_error(5);
    assert_eq!(st, before);
}

#[test]
fn update_dispatches_and_always_reports_render() {
    let mut st = State::default();
    let render = st.update(Msg::RegisterTenant { name: s("Alice"), contact: s("a@b.c") });
    assert!(render);
    let render = st.update(Msg::ListSite { number: s("12"), kind: s("flat") });
    assert!(render);
    let render = st.update(Msg::LeaseSite {
        site_number: s("12"),
        tenant_name: s("Alice"),
        start: s("2024-06-15"),
        duration: s("30"),
        rent: s("900"),
    });
    assert!(render);
    assert_eq!(st.tenants.len(), 1);
    assert_eq!(st.sites[0].kind, SiteKind::Flat);
    assert_eq!(st.leases.len(), 1);
    let render = st.update(Msg::Nope);
    assert!(render);
    let render = st.update(Msg::DismissErr(0));
    assert!(render);
}

#[test]
fn snapshot_equals_the_ledger() {
    let mut st = State::default();
    st.register_tenant(s("Alice"), s("a@b.c"));
    st.list_site(s("1"), s("yurt"));
    let snap = st.snapshot();
    assert_eq!(snap, st);
}

#[test]
fn push_error_appends_to_the_queue() {
    let mut st = State::default();
    st.push_error(s("something went wrong"));
    assert_eq!(st.errors, vec![s("something went wrong")]);
}
