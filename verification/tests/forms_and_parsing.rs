use avisha::date::{parse_date, Date};
use avisha::ledger::{Site, Tenant};
use avisha::site_form;
use avisha::tenant_form;
use avisha::text::parse_u32;
use avisha::{SiteKind, SiteValidator, TenantValidator, Validate};

fn s(x: &str) -> String {
    String::from(x)
}

#[test]
fn normalize_matches_builtin_kinds_case_insensitively() {
    assert_eq!(SiteKind::normalize("cabin"), SiteKind::Cabin);
    assert_eq!(SiteKind::normalize("CABIN"), SiteKind::Cabin);
    assert_eq!(SiteKind::normalize("hOuSe"), SiteKind::House);
    assert_eq!(SiteKind::normalize("flat"), SiteKind::Flat);
    assert_eq!(SiteKind::normalize(""), SiteKind::Cabin);
    assert_eq!(SiteKind::normalize("Tree House"), SiteKind::Other(s("tree house")));
    assert_eq!(SiteKind::normalize(" cabin "), SiteKind::Other(s(" cabin ")));
}

#[test]
fn normalize_lower_cases_beyond_ascii() {
    assert_eq!(SiteKind::normalize("É"), SiteKind::Other(s("é")));
    assert_eq!(SiteKind::normalize("ÉTAGE"), SiteKind::Other(s("étage")));
    assert_eq!(SiteKind::normalize("ÉTAGE"), SiteKind::normalize("étage"));
    assert_eq!(SiteKind::normalize("Große Hütte"), SiteKind::Other(s("große hütte")));
}

#[test]
fn normalize_is_idempotent_on_samples() {
    for x in ["cabin", "CABIN", "", "Flat", "TeePee", " house ", "Zoë's hut", "ÉTAGE"] {
        let once = SiteKind::normalize(x);
        let again = SiteKind::normalize(once.label().as_str());
        assert_eq!(again, once);
    }
}

#[test]
fn labels_render_builtins_title_cased_and_other_verbatim() {
    assert_eq!(SiteKind::Cabin.label(), "Cabin");
    assert_eq!(SiteKind::Flat.label(), "Flat");
    assert_eq!(SiteKind::House.label(), "House");
    assert_eq!(SiteKind::Other(s("straw hut")).label(), "straw hut");
}

#[test]
fn date_grammar_accepts_only_real_calendar_dates() {
    assert_eq!(parse_date("2024-01-01"), Some(Date { year: 2024, month: 1, day: 1 }));
    assert_eq!(parse_date("2024-02-29"), Some(Date { year: 2024, month: 2, day: 29 }));
    assert_eq!(parse_date("2023-02-29"), None);
    assert_eq!(parse_date("1900-02-29"), None);
    assert_eq!(parse_date("2000-02-29"), Some(Date { year: 2000, month: 2, day: 29 }));
    assert_eq!(parse_date("2024-13-01"), None);
    assert_eq!(parse_date("2024-00-10"), None);
    assert_eq!(parse_date("2024-04-31"), None);
    assert_eq!(parse_date("2024-1-1"), None);
    assert_eq!(parse_date("01-01-2024"), None);
    assert_eq!(parse_date(""), None);
}

#[test]
fn number_grammar_accepts_plain_decimals_within_range() {
    assert_eq!(parse_u32("500"), Some(500));
    assert_eq!(parse_u32("0"), Some(0));
    assert_eq!(parse_u32("007"), Some(7));
    assert_eq!(parse_u32("4294967295"), Some(u32::MAX));
    assert_eq!(parse_u32("4294967296"), None);
    assert_eq!(parse_u32("99999999999999999999999"), None);
    assert_eq!(parse_u32("-1"), None);
    assert_eq!(parse_u32("1.5"), None);
    assert_eq!(parse_u32(""), None);
}

#[test]
fn tenant_validator_pins_each_outcome() {
    let v = TenantValidator { tenants: vec![Tenant { name: s("Alice"), contact: s("a") }] };
    let m = tenant_form::Model { name: s("Bob"), contact: s("b") };
    assert!(v.validate(&m).is_ok());
    let m = tenant_form::Model { name: s(""), contact: s("b") };
    let errs = v.validate(&m).unwrap_err();
    assert_eq!(errs.get("name").map(|m| m.as_str()), Some("must be non-zero"));
    let m = tenant_form::Model { name: s("Alice"), contact: s("b") };
    let errs = v.validate(&m).unwrap_err();
    assert_eq!(errs.get("name").map(|m| m.as_str()), Some("must be unique"));
}

#[test]
fn site_validator_checks_number_and_other_kind_label() {
    let v = SiteValidator { sites: vec![Site { number: s("12"), kind: SiteKind::Cabin }] };
    let m = site_form::Model { number: s("13"), kind: site_form::Kind::Cabin };
    assert!(v.validate(&m).is_ok());
    let m = site_form::Model { number: s("12"), kind: site_form::Kind::Cabin };
    let errs = v.validate(&m).unwrap_err();
    assert_eq!(errs.get("number").map(|m| m.as_str()), Some("must be unique"));
    let m = site_form::Model { number: s(""), kind: site_form::Kind::Other(s("")) };
    let errs = v.validate(&m).unwrap_err();
    assert_eq!(errs.get("number").map(|m| m.as_str()), Some("must be non-zero"));
    assert_eq!(errs.get("kind").map(|m| m.as_str()), Some("must be non-zero"));
}

#[test]
fn field_errors_last_entry_wins_and_remove_clears_all() {
    let mut es = avisha::validate::FieldErrors::empty();
    es.add("name", "first");
    es.add("name", "second");
    assert_eq!(es.get("name").map(|m| m.as_str()), Some("second"));
    es.add("other", "kept");
    es.remove("name");
    assert!(es.get("name").is_none());
    assert_eq!(es.get("other").map(|m| m.as_str()), Some("kept"));
}

#[test]
fn editing_an_empty_name_shows_no_error_yet() {
    let v = TenantValidator { tenants: vec![] };
    let mut f = tenant_form::Form::new(v);
    f.edit(tenant_form::Field::Contact(s("a@b.c")));
    assert!(f.errors.is_empty());
    f.edit(tenant_form::Field::Name(s("")));
    assert!(f.errors.is_empty());
    assert!(f.errors.get("name").is_none());
}

#[test]
fn submitting_the_same_empty_name_is_rejected() {
    let v = TenantValidator { tenants: vec![] };
    let mut f = tenant_form::Form::new(v);
    f.edit(tenant_form::Field::Name(s("")));
    assert!(f.errors.get("name").is_none());
    let emitted = f.submit();
    assert!(emitted.is_none());
    assert_eq!(f.errors.get("name").map(|m| m.as_str()), Some("must be non-zero"));
}

#[test]
fn uniqueness_error_stays_visible_while_editing() {
    let v = TenantValidator { tenants: vec![Tenant { name: s("Alice"), contact: s("a") }] };
    let mut f = tenant_form::Form::new(v);
    f.edit(tenant_form::Field::Name(s("Alice")));
    assert_eq!(f.errors.get("name").map(|m| m.as_str()), Some("must be unique"));
}

#[test]
fn submitting_a_clean_tenant_form_emits_and_resets() {
    let v = TenantValidator { tenants: vec![] };
    let mut f = tenant_form::Form::new(v);
    f.edit(tenant_form::Field::Name(s("Alice")));
    f.edit(tenant_form::Field::Contact(s("alice@x.com")));
    let emitted = f.submit().unwrap();
    assert_eq!(emitted.name, "Alice");
    assert_eq!(emitted.contact, "alice@x.com");
    assert_eq!(f.model.name, "");
    assert_eq!(f.model.contact, "");
    assert!(f.errors.is_empty());
}

#[test]
fn editing_an_empty_other_label_shows_no_error_yet() {
    let v = SiteValidator { sites: vec![] };
    let mut f = site_form::Form::new(v);
    f.edit(site_form::Field::Number(s("12")));
    f.edit(site_form::Field::Kind(site_form::Kind::Other(s(""))));
    assert!(f.errors.get("kind").is_none());
    let emitted = f.submit();
    assert!(emitted.is_none());
    assert_eq!(f.errors.get("kind").map(|m| m.as_str()), Some("must be non-zero"));
}

#[test]
fn site_form_kind_text_feeds_normalization() {
    assert_eq!(site_form::Kind::Cabin.as_text(), "cabin");
    assert_eq!(site_form::Kind::House.as_text(), "house");
    assert_eq!(site_form::Kind::Flat.as_text(), "flat");
    assert_eq!(site_form::Kind::Other(s("yurt")).as_text(), "yurt");
    assert_eq!(site_form::Kind::Other(s("yurt")).into_site_kind(), SiteKind::Other(s("yurt")));
}

#[test]
fn lease_form_collects_fields_and_resets_on_submit() {
    let mut f = avisha::lease_form::Form::new();
    f.edit(avisha::lease_form::Field::Site(s("12")));
    f.edit(avisha::lease_form::Field::Tenant(s("Alice")));
    f.edit(avisha::lease_form::Field::Start(s("2024-01-01")));
    f.edit(avisha::lease_form::Field::Duration(s("14")));
    f.edit(avisha::lease_form::Field::Rent(s("500")));
    let m = f.submit();
    assert_eq!(m.site_number, "12");
    assert_eq!(m.tenant_name, "Alice");
    assert_eq!(m.start, "2024-01-01");
    assert_eq!(m.duration, "14");
    assert_eq!(m.rent, "500");
    assert_eq!(f.model.site_number, "");
    assert_eq!(f.model.rent, "");
}
