use avisha::ledger::{Lease, State, Tenant, Term};
use avisha::date::Date;
use avisha::{restore, store};

fn s(x: &str) -> String {
    String::from(x)
}

#[test]
fn empty_ledger_blob_is_four_zero_counts() {
    let st = State::default();
    assert_eq!(store(&st), "0;0;0;0;");
}

#[test]
fn round_trip_of_a_reachable_ledger() {
    let mut st = State::default();
    st.register_tenant(s("Alice"), s("alice@x.com"));
    st.register_tenant(s("Bob"), s("+49 151 000"));
    st.list_site(s("12"), s("cabin"));
    st.list_site(s("13"), s("HOUSE"));
    st.list_site(s("14"), s("Straw Hut"));
    st.lease_site(s("12"), s("Alice"), s("2024-02-29"), s("14"), s("500"));
    st.register_tenant(s("Alice"), s("dup"));
    assert_eq!(st.errors.len(), 1);
    let restored = restore(store(&st).as_str());
    assert_eq!(restored, st);
}

#[test]
fn round_trip_keeps_awkward_strings() {
    let mut st = State::default();
    st.register_tenant(s("A;B 7;"), s("semi;colons;"));
    st.register_tenant(s("Zoë 🌲"), s("line\nbreak"));
    st.list_site(s("n;1"), s("A-Frame; small"));
    let restored = restore(store(&st).as_str());
    assert_eq!(restored, st);
}

#[test]
fn one_tenant_blob_has_the_documented_shape() {
    let mut st = State::default();
    st.register_tenant(s("Alice"), s("alice@x.com"));
    assert_eq!(store(&st), "1;5;Alice11;alice@x.com0;0;0;");
}

#[test]
fn storing_a_restored_blob_gives_the_blob_back() {
    let mut st = State::default();
    st.register_tenant(s("Alice"), s("alice@x.com"));
    st.list_site(s("12"), s("flat"));
    let blob = store(&st);
    assert_eq!(store(&restore(blob.as_str())), blob);
}

#[test]
fn restore_of_garbage_falls_back_to_empty() {
    assert_eq!(restore("not a blob"), State::default());
    assert_eq!(restore(""), State::default());
    assert_eq!(restore("0;0;0;"), State::default());
    assert_eq!(restore("3;"), State::default());
}

#[test]
fn restore_of_blob_with_trailing_garbage_falls_back() {
    let st = State::default();
    let mut blob = store(&st);
    blob.push('x');
    assert_eq!(restore(blob.as_str()), State::default());
}

#[test]
fn restore_rejects_a_blob_that_breaks_the_invariant() {
    let mut st = State::default();
    st.tenants.push(Tenant { name: s("Alice"), contact: s("a") });
    st.tenants.push(Tenant { name: s("Alice"), contact: s("b") });
    let blob = store(&st);
    assert_eq!(restore(blob.as_str()), State::default());
}

#[test]
fn restore_rejects_an_invalid_stored_date() {
    let mut st = State::default();
    st.leases.push(Lease {
        tenant_name: s("Alice"),
        site_number: s("12"),
        term: Term { start: Date { year: 2023, month: 2, day: 29 }, duration: 1, rent: 1 },
    });
    let blob = store(&st);
    assert_eq!(restore(blob.as_str()), State::default());
}

#[test]
fn restore_rejects_a_blob_with_a_dangling_lease() {
    let mut st = State::default();
    st.leases.push(Lease {
        tenant_name: s("Nobody"),
        site_number: s("99"),
        term: Term { start: Date { year: 2024, month: 1, day: 1 }, duration: 1, rent: 1 },
    });
    let blob = store(&st);
    assert_eq!(restore(blob.as_str()), State::default());
}

#[test]
fn check_wf_spots_a_duplicate_name() {
    let mut st = State::default();
    assert!(st.check_wf());
    st.tenants.push(Tenant { name: s("Alice"), contact: s("a") });
    st.tenants.push(Tenant { name: s("Alice"), contact: s("b") });
    assert!(!st.check_wf());
}

#[test]
fn error_state_survives_a_reload() {
    let mut st = State::default();
    st.register_tenant(s(""), s(""));
    assert_eq!(st.errors.len(), 1);
    let restored = restore(store(&st).as_str());
    assert_eq!(restored.errors, vec![s("tenant name must be non-zero")]);
}
