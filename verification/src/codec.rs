//! The persistence codec: the whole ledger as one text blob, written and
//! read by this crate alone. Every piece of content is length-prefixed, so
//! the format needs no escaping, and decoding an encoded ledger provably
//! gives the ledger back.
//!
//! Grammar of the blob: a number is its decimal digits followed by `;`; a
//! string is the number of its characters followed by the characters
//! verbatim; a list is its element count followed by the elements in order.

use vstd::prelude::*;
use crate::text::{all_digits, digit_val, is_digit, seq_val};
use crate::date::Date;
use crate::kind::{SiteKind, SiteKindView};
use crate::ledger::{Lease, LeaseView, Site, SiteView, State, StateView, Tenant, TenantView, Term};

verus! {

/// The digit character of a value between 0 and 9.
pub open spec fn digit_char(d: int) -> char {
    (d + 48) as char
}

/// The decimal digits of a number, most significant first.
pub open spec fn dec_digits(n: nat) -> Seq<char>
    decreases n,
{
    if n < 10 {
        seq![digit_char(n as int)]
    } else {
        dec_digits(n / 10).push(digit_char((n % 10) as int))
    }
}

/// The encoding of a number: its digits closed by `;`.
pub open spec fn enc_num(n: nat) -> Seq<char> {
    dec_digits(n).push(';')
}

/// The encoding of a string: its length, then its characters verbatim.
pub open spec fn enc_str(t: Seq<char>) -> Seq<char> {
    enc_num(t.len()) + t
}

/// The index of the first non-digit character at or after `i`.
pub open spec fn scan_digits(s: Seq<char>, i: int) -> int
    decreases s.len() - i,
        when 0 <= i <= s.len()
{
    if i < s.len() && is_digit(s[i]) {
        scan_digits(s, i + 1)
    } else {
        i
    }
}

/// The reading of a number at position `i`: a non-empty digit run whose
/// value fits `u64`, closed by `;`. Yields the value and the position after
/// the `;`.
pub open spec fn parse_num_spec(s: Seq<char>, i: int) -> Option<(int, int)> {
    if 0 <= i <= s.len() {
        let j = scan_digits(s, i);
        if j == i {
            None
        } else if seq_val(s.subrange(i, j)) > u64::MAX as int {
            None
        } else if j == s.len() || s[j] != ';' {
            None
        } else {
            Some((seq_val(s.subrange(i, j)), j + 1))
        }
    } else {
        None
    }
}

/// The reading of a string at position `i`: its length, then that many
/// characters.
pub open spec fn parse_str_spec(s: Seq<char>, i: int) -> Option<(Seq<char>, int)> {
    match parse_num_spec(s, i) {
        Some((len, j)) => if j + len <= s.len() {
            Some((s.subrange(j, j + len), j + len))
        } else {
            None
        },
        None => None,
    }
}

/// Whether the text `e` stands in `s` at position `i`.
pub open spec fn parses_at(s: Seq<char>, i: int, e: Seq<char>) -> bool {
    &&& 0 <= i
    &&& i + e.len() <= s.len()
    &&& s.subrange(i, i + e.len()) == e
}

/// A text standing at `i` splits into its two halves, one at `i` and one
/// right after the first.
pub proof fn lemma_parses_at_split(s: Seq<char>, i: int, a: Seq<char>, b: Seq<char>)
    requires
        parses_at(s, i, a + b),
    ensures
        parses_at(s, i, a),
        parses_at(s, i + a.len(), b),
{
    assert(s.subrange(i, i + a.len()) =~= a);
    assert forall|k: int| 0 <= k < b.len() implies s.subrange(
        i + a.len(),
        i + a.len() + b.len(),
    )[k] == b[k] by {
        assert(s.subrange(i, i + (a + b).len())[a.len() + k] == (a + b)[a.len() + k]);
    }
    assert(s.subrange(i + a.len(), i + a.len() + b.len()) =~= b);
}

/// The digits of a number are at least one, all digits, and read back to
/// the number.
pub proof fn lemma_dec_digits(n: nat)
    ensures
        dec_digits(n).len() >= 1,
        all_digits(dec_digits(n)),
        seq_val(dec_digits(n)) == n,
    decreases n,
{
    if n < 10 {
        let ds = dec_digits(n);
        assert(ds =~= seq![digit_char(n as int)]);
        assert(is_digit(digit_char(n as int)));
        assert(seq_val(ds) == seq_val(ds.drop_last()) * 10 + digit_val(ds.last()));
        assert(ds.drop_last() =~= Seq::<char>::empty());
    } else {
        lemma_dec_digits(n / 10);
        let hd = dec_digits(n / 10);
        let ds = dec_digits(n);
        assert(ds == hd.push(digit_char((n % 10) as int)));
        assert(ds.drop_last() =~= hd);
        assert(is_digit(digit_char((n % 10) as int)));
        assert forall|k: int| 0 <= k < ds.len() implies is_digit(ds[k]) by {
            if k < hd.len() {
                assert(ds[k] == hd[k]);
            }
        }
        assert(seq_val(ds) == seq_val(hd) * 10 + digit_val(ds.last()));
        assert(seq_val(ds) == (n / 10) * 10 + (n % 10));
    }
}

/// A run of digits closed by a non-digit (or by the end of the text) scans
/// to exactly its end.
pub proof fn lemma_scan_digits_run(s: Seq<char>, i: int, k: int)
    requires
        0 <= i <= k <= s.len(),
        forall|m: int| i <= m < k ==> is_digit(s[m]),
        k == s.len() || !is_digit(s[k]),
    ensures
        scan_digits(s, i) == k,
    decreases k - i,
{
    if i < k {
        assert(is_digit(s[i]));
        lemma_scan_digits_run(s, i + 1, k);
    }
}

/// Reading an encoded number at its position yields the number and lands
/// right after its `;`.
pub proof fn lemma_parse_enc_num(s: Seq<char>, i: int, n: nat)
    requires
        n <= u64::MAX,
        parses_at(s, i, enc_num(n)),
    ensures
        parse_num_spec(s, i) == Some((n as int, i + enc_num(n).len())),
{
    lemma_dec_digits(n);
    let dd = dec_digits(n);
    let ln = dd.len();
    let e = enc_num(n);
    assert forall|k: int| 0 <= k < e.len() implies s[i + k] == e[k] by {
        assert(s.subrange(i, i + e.len())[k] == s[i + k]);
    }
    assert forall|m: int| i <= m < i + ln implies is_digit(s[m]) by {
        assert(s[m] == e[m - i]);
        assert(e[m - i] == dd[m - i]);
    }
    assert(e[ln as int] == ';');
    assert(s[i + ln] == e[ln as int]);
    assert(!is_digit(';'));
    lemma_scan_digits_run(s, i, i + ln);
    assert(scan_digits(s, i) == i + ln);
    assert(s.subrange(i, i + ln) =~= dd);
    assert(seq_val(s.subrange(i, i + ln)) == n);
}

/// Reading an encoded string at its position yields the string and lands
/// right after it.
pub proof fn lemma_parse_enc_str(s: Seq<char>, i: int, t: Seq<char>)
    requires
        t.len() <= u64::MAX,
        parses_at(s, i, enc_str(t)),
    ensures
        parse_str_spec(s, i) == Some((t, i + enc_str(t).len())),
{
    lemma_parses_at_split(s, i, enc_num(t.len()), t);
    lemma_parse_enc_num(s, i, t.len());
    let j = i + enc_num(t.len()).len();
    assert(s.subrange(j, j + t.len()) == t);
}

/// The encoding of a site kind: one tag character, and for `Other` the
/// label.
pub open spec fn enc_kind(k: SiteKindView) -> Seq<char> {
    match k {
        SiteKindView::Cabin => seq!['c'],
        SiteKindView::Flat => seq!['f'],
        SiteKindView::House => seq!['h'],
        SiteKindView::Other(t) => seq!['o'] + enc_str(t),
    }
}

/// The encoding of a tenant: name, then contact.
pub open spec fn enc_tenant(t: TenantView) -> Seq<char> {
    enc_str(t.name) + enc_str(t.contact)
}

/// The encoding of a site: number, then kind.
pub open spec fn enc_site(s: SiteView) -> Seq<char> {
    enc_str(s.number) + enc_kind(s.kind)
}

/// The encoding of a term: start date as three numbers, then duration and
/// rent.
pub open spec fn enc_term(t: Term) -> Seq<char> {
    enc_num(t.start.year as nat) + enc_num(t.start.month as nat) + enc_num(t.start.day as nat)
        + enc_num(t.duration as nat) + enc_num(t.rent as nat)
}

/// The encoding of a lease: tenant name, site number, then term.
pub open spec fn enc_lease(l: LeaseView) -> Seq<char> {
    enc_str(l.tenant_name) + enc_str(l.site_number) + enc_term(l.term)
}

/// The encoding of the tenant roll, element after element.
pub open spec fn enc_tenant_list(ts: Seq<TenantView>) -> Seq<char>
    decreases ts.len(),
{
    if ts.len() == 0 {
        Seq::empty()
    } else {
        enc_tenant(ts.first()) + enc_tenant_list(ts.drop_first())
    }
}

/// The encoding of the site list, element after element.
pub open spec fn enc_site_list(ss: Seq<SiteView>) -> Seq<char>
    decreases ss.len(),
{
    if ss.len() == 0 {
        Seq::empty()
    } else {
        enc_site(ss.first()) + enc_site_list(ss.drop_first())
    }
}

/// The encoding of the lease log, element after element.
pub open spec fn enc_lease_list(ls: Seq<LeaseView>) -> Seq<char>
    decreases ls.len(),
{
    if ls.len() == 0 {
        Seq::empty()
    } else {
        enc_lease(ls.first()) + enc_lease_list(ls.drop_first())
    }
}

/// The encoding of the error queue, message after message.
pub open spec fn enc_error_list(es: Seq<Seq<char>>) -> Seq<char>
    decreases es.len(),
{
    if es.len() == 0 {
        Seq::empty()
    } else {
        enc_str(es.first()) + enc_error_list(es.drop_first())
    }
}

/// The encoding of the whole ledger: each of the four lists, count first.
pub open spec fn enc_state(v: StateView) -> Seq<char> {
    enc_num(v.tenants.len()) + enc_tenant_list(v.tenants) + enc_num(v.sites.len()) + enc_site_list(
        v.sites,
    ) + enc_num(v.leases.len()) + enc_lease_list(v.leases) + enc_num(v.errors.len())
        + enc_error_list(v.errors)
}

/// Whether a string is short enough for its length to ride in the format's
/// numbers. Anything a `Vec` can hold is.
pub open spec fn str_ok(t: Seq<char>) -> bool {
    t.len() <= u64::MAX
}

/// Whether a ledger can be encoded: every count and every string length
/// fits the format's numbers. The image of any in-memory ledger qualifies.
pub open spec fn encodable(v: StateView) -> bool {
    &&& v.tenants.len() <= u64::MAX
    &&& v.sites.len() <= u64::MAX
    &&& v.leases.len() <= u64::MAX
    &&& v.errors.len() <= u64::MAX
    &&& forall|i: int|
        0 <= i < v.tenants.len() ==> str_ok((#[trigger] v.tenants[i]).name) && str_ok(
            v.tenants[i].contact,
        )
    &&& forall|i: int|
        0 <= i < v.sites.len() ==> str_ok((#[trigger] v.sites[i]).number) && ((v.sites[i].kind)
            matches SiteKindView::Other(t) ==> str_ok(t))
    &&& forall|i: int|
        0 <= i < v.leases.len() ==> str_ok((#[trigger] v.leases[i]).tenant_name) && str_ok(
            v.leases[i].site_number,
        )
    &&& forall|i: int| 0 <= i < v.errors.len() ==> str_ok(#[trigger] v.errors[i])
}

/// The reading of a site kind at position `i`.
pub open spec fn parse_kind_spec(s: Seq<char>, i: int) -> Option<(SiteKindView, int)> {
    if 0 <= i < s.len() {
        if s[i] == 'c' {
            Some((SiteKindView::Cabin, i + 1))
        } else if s[i] == 'f' {
            Some((SiteKindView::Flat, i + 1))
        } else if s[i] == 'h' {
            Some((SiteKindView::House, i + 1))
        } else if s[i] == 'o' {
            match parse_str_spec(s, i + 1) {
                Some((t, j)) => Some((SiteKindView::Other(t), j)),
                None => None,
            }
        } else {
            None
        }
    } else {
        None
    }
}

/// The reading of a tenant at position `i`.
pub open spec fn parse_tenant_spec(s: Seq<char>, i: int) -> Option<(TenantView, int)> {
    match parse_str_spec(s, i) {
        Some((name, j)) => match parse_str_spec(s, j) {
            Some((contact, k)) => Some((TenantView { name, contact }, k)),
            None => None,
        },
        None => None,
    }
}

/// The reading of a site at position `i`.
pub open spec fn parse_site_spec(s: Seq<char>, i: int) -> Option<(SiteView, int)> {
    match parse_str_spec(s, i) {
        Some((number, j)) => match parse_kind_spec(s, j) {
            Some((kind, k)) => Some((SiteView { number, kind }, k)),
            None => None,
        },
        None => None,
    }
}

/// The reading of a term at position `i`: five numbers, each within `u32`.
pub open spec fn parse_term_spec(s: Seq<char>, i: int) -> Option<(Term, int)> {
    match parse_num_spec(s, i) {
        Some((y, j1)) => match parse_num_spec(s, j1) {
            Some((mo, j2)) => match parse_num_spec(s, j2) {
                Some((d, j3)) => match parse_num_spec(s, j3) {
                    Some((du, j4)) => match parse_num_spec(s, j4) {
                        Some((re, j5)) => if y <= u32::MAX && mo <= u32::MAX && d <= u32::MAX && du
                            <= u32::MAX && re <= u32::MAX {
                            Some(
                                (
                                    Term {
                                        start: Date {
                                            year: y as u32,
                                            month: mo as u32,
                                            day: d as u32,
                                        },
                                        duration: du as u32,
                                        rent: re as u32,
                                    },
                                    j5,
                                ),
                            )
                        } else {
                            None
                        },
                        None => None,
                    },
                    None => None,
                },
                None => None,
            },
            None => None,
        },
        None => None,
    }
}

/// The reading of a lease at position `i`.
pub open spec fn parse_lease_spec(s: Seq<char>, i: int) -> Option<(LeaseView, int)> {
    match parse_str_spec(s, i) {
        Some((tenant_name, j)) => match parse_str_spec(s, j) {
            Some((site_number, k)) => match parse_term_spec(s, k) {
                Some((term, m)) => Some((LeaseView { tenant_name, site_number, term }, m)),
                None => None,
            },
            None => None,
        },
        None => None,
    }
}

/// The reading of `n` tenants in a row from position `i`.
pub open spec fn parse_tenant_list_spec(s: Seq<char>, i: int, n: nat) -> Option<
    (Seq<TenantView>, int),
>
    decreases n,
{
    if n == 0 {
        Some((Seq::empty(), i))
    } else {
        match parse_tenant_spec(s, i) {
            Some((t, j)) => match parse_tenant_list_spec(s, j, (n - 1) as nat) {
                Some((ts, k)) => Some((seq![t] + ts, k)),
                None => None,
            },
            None => None,
        }
    }
}

/// The reading of `n` sites in a row from position `i`.
pub open spec fn parse_site_list_spec(s: Seq<char>, i: int, n: nat) -> Option<(Seq<SiteView>, int)>
    decreases n,
{
    if n == 0 {
        Some((Seq::empty(), i))
    } else {
        match parse_site_spec(s, i) {
            Some((t, j)) => match parse_site_list_spec(s, j, (n - 1) as nat) {
                Some((ts, k)) => Some((seq![t] + ts, k)),
                None => None,
            },
            None => None,
        }
    }
}

/// The reading of `n` leases in a row from position `i`.
pub open spec fn parse_lease_list_spec(s: Seq<char>, i: int, n: nat) -> Option<
    (Seq<LeaseView>, int),
>
    decreases n,
{
    if n == 0 {
        Some((Seq::empty(), i))
    } else {
        match parse_lease_spec(s, i) {
            Some((t, j)) => match parse_lease_list_spec(s, j, (n - 1) as nat) {
                Some((ts, k)) => Some((seq![t] + ts, k)),
                None => None,
            },
            None => None,
        }
    }
}

/// The reading of `n` error messages in a row from position `i`.
pub open spec fn parse_error_list_spec(s: Seq<char>, i: int, n: nat) -> Option<
    (Seq<Seq<char>>, int),
>
    decreases n,
{
    if n == 0 {
        Some((Seq::empty(), i))
    } else {
        match parse_str_spec(s, i) {
            Some((t, j)) => match parse_error_list_spec(s, j, (n - 1) as nat) {
                Some((ts, k)) => Some((seq![t] + ts, k)),
                None => None,
            },
            None => None,
        }
    }
}

/// The reading of a whole blob: the four counted lists, and nothing after
/// them.
pub open spec fn decode_spec(s: Seq<char>) -> Option<StateView> {
    match parse_num_spec(s, 0) {
        Some((nt, i1)) => match parse_tenant_list_spec(s, i1, nt as nat) {
            Some((tenants, i2)) => match parse_num_spec(s, i2) {
                Some((ns, i3)) => match parse_site_list_spec(s, i3, ns as nat) {
                    Some((sites, i4)) => match parse_num_spec(s, i4) {
                        Some((nl, i5)) => match parse_lease_list_spec(s, i5, nl as nat) {
                            Some((leases, i6)) => match parse_num_spec(s, i6) {
                                Some((ne, i7)) => match parse_error_list_spec(s, i7, ne as nat) {
                                    Some((errors, i8)) => if i8 == s.len() {
                                        Some(StateView { tenants, sites, leases, errors })
                                    } else {
                                        None
                                    },
                                    None => None,
                                },
                                None => None,
                            },
                            None => None,
                        },
                        None => None,
                    },
                    None => None,
                },
                None => None,
            },
            None => None,
        },
        None => None,
    }
}

/// Reading an encoded kind at its position yields the kind back.
pub proof fn lemma_parse_enc_kind(s: Seq<char>, i: int, k: SiteKindView)
    requires
        (k matches SiteKindView::Other(t) ==> str_ok(t)),
        parses_at(s, i, enc_kind(k)),
    ensures
        parse_kind_spec(s, i) == Some((k, i + enc_kind(k).len())),
{
    let e = enc_kind(k);
    assert(s.subrange(i, i + e.len())[0] == s[i]);
    match k {
        SiteKindView::Cabin => {
            assert(s[i] == 'c');
        },
        SiteKindView::Flat => {
            assert(s[i] == 'f');
        },
        SiteKindView::House => {
            assert(s[i] == 'h');
        },
        SiteKindView::Other(t) => {
            assert(s[i] == 'o');
            lemma_parses_at_split(s, i, seq!['o'], enc_str(t));
            lemma_parse_enc_str(s, i + 1, t);
        },
    }
}

/// Reading an encoded tenant at its position yields the tenant back.
pub proof fn lemma_parse_enc_tenant(s: Seq<char>, i: int, t: TenantView)
    requires
        str_ok(t.name),
        str_ok(t.contact),
        parses_at(s, i, enc_tenant(t)),
    ensures
        parse_tenant_spec(s, i) == Some((t, i + enc_tenant(t).len())),
{
    lemma_parses_at_split(s, i, enc_str(t.name), enc_str(t.contact));
    lemma_parse_enc_str(s, i, t.name);
    lemma_parse_enc_str(s, i + enc_str(t.name).len(), t.contact);
}

/// Reading an encoded site at its position yields the site back.
pub proof fn lemma_parse_enc_site(s: Seq<char>, i: int, v: SiteView)
    requires
        str_ok(v.number),
        (v.kind matches SiteKindView::Other(t) ==> str_ok(t)),
        parses_at(s, i, enc_site(v)),
    ensures
        parse_site_spec(s, i) == Some((v, i + enc_site(v).len())),
{
    lemma_parses_at_split(s, i, enc_str(v.number), enc_kind(v.kind));
    lemma_parse_enc_str(s, i, v.number);
    lemma_parse_enc_kind(s, i + enc_str(v.number).len(), v.kind);
}

/// Reading an encoded term at its position yields the term back.
pub proof fn lemma_parse_enc_term(s: Seq<char>, i: int, t: Term)
    requires
        parses_at(s, i, enc_term(t)),
    ensures
        parse_term_spec(s, i) == Some((t, i + enc_term(t).len())),
{
    let e1 = enc_num(t.start.year as nat);
    let e2 = enc_num(t.start.month as nat);
    let e3 = enc_num(t.start.day as nat);
    let e4 = enc_num(t.duration as nat);
    let e5 = enc_num(t.rent as nat);
    assert(enc_term(t) =~= e1 + (e2 + (e3 + (e4 + e5))));
    lemma_parses_at_split(s, i, e1, e2 + (e3 + (e4 + e5)));
    lemma_parse_enc_num(s, i, t.start.year as nat);
    let i1 = i + e1.len();
    lemma_parses_at_split(s, i1, e2, e3 + (e4 + e5));
    lemma_parse_enc_num(s, i1, t.start.month as nat);
    let i2 = i1 + e2.len();
    lemma_parses_at_split(s, i2, e3, e4 + e5);
    lemma_parse_enc_num(s, i2, t.start.day as nat);
    let i3 = i2 + e3.len();
    lemma_parses_at_split(s, i3, e4, e5);
    lemma_parse_enc_num(s, i3, t.duration as nat);
    let i4 = i3 + e4.len();
    lemma_parse_enc_num(s, i4, t.rent as nat);
}

/// Reading an encoded lease at its position yields the lease back.
pub proof fn lemma_parse_enc_lease(s: Seq<char>, i: int, l: LeaseView)
    requires
        str_ok(l.tenant_name),
        str_ok(l.site_number),
        parses_at(s, i, enc_lease(l)),
    ensures
        parse_lease_spec(s, i) == Some((l, i + enc_lease(l).len())),
{
    let e1 = enc_str(l.tenant_name);
    let e2 = enc_str(l.site_number);
    let e3 = enc_term(l.term);
    assert(enc_lease(l) =~= e1 + (e2 + e3));
    lemma_parses_at_split(s, i, e1, e2 + e3);
    lemma_parse_enc_str(s, i, l.tenant_name);
    let i1 = i + e1.len();
    lemma_parses_at_split(s, i1, e2, e3);
    lemma_parse_enc_str(s, i1, l.site_number);
    let i2 = i1 + e2.len();
    lemma_parse_enc_term(s, i2, l.term);
}

/// Reading an encoded tenant roll at its position yields the roll back.
pub proof fn lemma_parse_enc_tenant_list(s: Seq<char>, i: int, ts: Seq<TenantView>)
    requires
        forall|k: int|
            0 <= k < ts.len() ==> str_ok((#[trigger] ts[k]).name) && str_ok(ts[k].contact),
        parses_at(s, i, enc_tenant_list(ts)),
    ensures
        parse_tenant_list_spec(s, i, ts.len()) == Some((ts, i + enc_tenant_list(ts).len())),
    decreases ts.len(),
{
    if ts.len() == 0 {
        assert(parse_tenant_list_spec(s, i, 0) == Some((Seq::<TenantView>::empty(), i)));
        assert(ts =~= Seq::<TenantView>::empty());
    } else {
        let hd = ts.first();
        let tl = ts.drop_first();
        lemma_parses_at_split(s, i, enc_tenant(hd), enc_tenant_list(tl));
        lemma_parse_enc_tenant(s, i, hd);
        let j = i + enc_tenant(hd).len();
        lemma_parse_enc_tenant_list(s, j, tl);
        assert(seq![hd] + tl =~= ts);
    }
}

/// Reading an encoded site list at its position yields the list back.
pub proof fn lemma_parse_enc_site_list(s: Seq<char>, i: int, ss: Seq<SiteView>)
    requires
        forall|k: int|
            0 <= k < ss.len() ==> str_ok((#[trigger] ss[k]).number) && ((ss[k].kind) matches
                SiteKindView::Other(t) ==> str_ok(t)),
        parses_at(s, i, enc_site_list(ss)),
    ensures
        parse_site_list_spec(s, i, ss.len()) == Some((ss, i + enc_site_list(ss).len())),
    decreases ss.len(),
{
    if ss.len() == 0 {
        assert(ss =~= Seq::<SiteView>::empty());
    } else {
        let hd = ss.first();
        let tl = ss.drop_first();
        lemma_parses_at_split(s, i, enc_site(hd), enc_site_list(tl));
        lemma_parse_enc_site(s, i, hd);
        let j = i + enc_site(hd).len();
        lemma_parse_enc_site_list(s, j, tl);
        assert(seq![hd] + tl =~= ss);
    }
}

/// Reading an encoded lease log at its position yields the log back.
pub proof fn lemma_parse_enc_lease_list(s: Seq<char>, i: int, ls: Seq<LeaseView>)
    requires
        forall|k: int|
            0 <= k < ls.len() ==> str_ok((#[trigger] ls[k]).tenant_name) && str_ok(
                ls[k].site_number,
            ),
        parses_at(s, i, enc_lease_list(ls)),
    ensures
        parse_lease_list_spec(s, i, ls.len()) == Some((ls, i + enc_lease_list(ls).len())),
    decreases ls.len(),
{
    if ls.len() == 0 {
        assert(ls =~= Seq::<LeaseView>::empty());
    } else {
        let hd = ls.first();
        let tl = ls.drop_first();
        lemma_parses_at_split(s, i, enc_lease(hd), enc_lease_list(tl));
        lemma_parse_enc_lease(s, i, hd);
        let j = i + enc_lease(hd).len();
        lemma_parse_enc_lease_list(s, j, tl);
        assert(seq![hd] + tl =~= ls);
    }
}

/// Reading an encoded error queue at its position yields the queue back.
pub proof fn lemma_parse_enc_error_list(s: Seq<char>, i: int, es: Seq<Seq<char>>)
    requires
        forall|k: int| 0 <= k < es.len() ==> str_ok(#[trigger] es[k]),
        parses_at(s, i, enc_error_list(es)),
    ensures
        parse_error_list_spec(s, i, es.len()) == Some((es, i + enc_error_list(es).len())),
    decreases es.len(),
{
    if es.len() == 0 {
        assert(es =~= Seq::<Seq<char>>::empty());
    } else {
        let hd = es.first();
        let tl = es.drop_first();
        lemma_parses_at_split(s, i, enc_str(hd), enc_error_list(tl));
        lemma_parse_enc_str(s, i, hd);
        let j = i + enc_str(hd).len();
        lemma_parse_enc_error_list(s, j, tl);
        assert(seq![hd] + tl =~= es);
    }
}

/// The round trip: decoding the encoding of any encodable ledger gives the
/// ledger back, field for field.
#[verifier::rlimit(80)]
pub proof fn lemma_round_trip(v: StateView)
    requires
        encodable(v),
    ensures
        decode_spec(enc_state(v)) == Some(v),
{
    let s = enc_state(v);
    let c1 = enc_num(v.tenants.len());
    let l1 = enc_tenant_list(v.tenants);
    let c2 = enc_num(v.sites.len());
    let l2 = enc_site_list(v.sites);
    let c3 = enc_num(v.leases.len());
    let l3 = enc_lease_list(v.leases);
    let c4 = enc_num(v.errors.len());
    let l4 = enc_error_list(v.errors);
    assert(s =~= c1 + (l1 + (c2 + (l2 + (c3 + (l3 + (c4 + l4)))))));
    assert(parses_at(s, 0, c1 + (l1 + (c2 + (l2 + (c3 + (l3 + (c4 + l4)))))))) by {
        assert(s.subrange(0, s.len() as int) =~= s);
    }
    lemma_parses_at_split(s, 0, c1, l1 + (c2 + (l2 + (c3 + (l3 + (c4 + l4))))));
    lemma_parse_enc_num(s, 0, v.tenants.len());
    let i1: int = 0 + c1.len() as int;
    lemma_parses_at_split(s, i1, l1, c2 + (l2 + (c3 + (l3 + (c4 + l4)))));
    lemma_parse_enc_tenant_list(s, i1, v.tenants);
    let i2: int = i1 + l1.len() as int;
    lemma_parses_at_split(s, i2, c2, l2 + (c3 + (l3 + (c4 + l4))));
    lemma_parse_enc_num(s, i2, v.sites.len());
    let i3: int = i2 + c2.len() as int;
    lemma_parses_at_split(s, i3, l2, c3 + (l3 + (c4 + l4)));
    lemma_parse_enc_site_list(s, i3, v.sites);
    let i4: int = i3 + l2.len() as int;
    lemma_parses_at_split(s, i4, c3, l3 + (c4 + l4));
    lemma_parse_enc_num(s, i4, v.leases.len());
    let i5: int = i4 + c3.len() as int;
    lemma_parses_at_split(s, i5, l3, c4 + l4);
    lemma_parse_enc_lease_list(s, i5, v.leases);
    let i6: int = i5 + l3.len() as int;
    lemma_parses_at_split(s, i6, c4, l4);
    lemma_parse_enc_num(s, i6, v.errors.len());
    let i7: int = i6 + c4.len() as int;
    lemma_parse_enc_error_list(s, i7, v.errors);
    let i8: int = i7 + l4.len() as int;
    assert(i8 == s.len());
    assert(decode_spec(s) == Some(StateView { tenants: v.tenants, sites: v.sites, leases: v.leases, errors: v.errors }));
    assert(StateView { tenants: v.tenants, sites: v.sites, leases: v.leases, errors: v.errors } =~= v);
}


/// Appending one tenant to the roll appends its encoding to the list's.
pub proof fn lemma_enc_tenant_list_snoc(ts: Seq<TenantView>, t: TenantView)
    ensures
        enc_tenant_list(ts.push(t)) == enc_tenant_list(ts) + enc_tenant(t),
    decreases ts.len(),
{
    if ts.len() == 0 {
        assert(ts.push(t).first() == t);
        assert(ts.push(t).drop_first() =~= Seq::<TenantView>::empty());
        assert(enc_tenant_list(ts.push(t)) == enc_tenant(t) + enc_tenant_list(Seq::<TenantView>::empty()));
        assert(enc_tenant_list(Seq::<TenantView>::empty()) == Seq::<char>::empty());
        assert(enc_tenant_list(ts) == Seq::<char>::empty());
        assert(enc_tenant_list(ts.push(t)) =~= enc_tenant_list(ts) + enc_tenant(t));
    } else {
        assert(ts.push(t).first() == ts.first());
        assert(ts.push(t).drop_first() =~= ts.drop_first().push(t));
        lemma_enc_tenant_list_snoc(ts.drop_first(), t);
        assert(enc_tenant_list(ts.push(t)) == enc_tenant(ts.first()) + enc_tenant_list(ts.drop_first().push(t)));
        assert(enc_tenant_list(ts) == enc_tenant(ts.first()) + enc_tenant_list(ts.drop_first()));
        assert(enc_tenant_list(ts.push(t)) =~= enc_tenant_list(ts) + enc_tenant(t));
    }
}

/// Appending one site to the list appends its encoding to the list's.
pub proof fn lemma_enc_site_list_snoc(ss: Seq<SiteView>, t: SiteView)
    ensures
        enc_site_list(ss.push(t)) == enc_site_list(ss) + enc_site(t),
    decreases ss.len(),
{
    if ss.len() == 0 {
        assert(ss.push(t).first() == t);
        assert(ss.push(t).drop_first() =~= Seq::<SiteView>::empty());
        assert(enc_site_list(ss.push(t)) == enc_site(t) + enc_site_list(Seq::<SiteView>::empty()));
        assert(enc_site_list(Seq::<SiteView>::empty()) == Seq::<char>::empty());
        assert(enc_site_list(ss) == Seq::<char>::empty());
        assert(enc_site_list(ss.push(t)) =~= enc_site_list(ss) + enc_site(t));
    } else {
        assert(ss.push(t).first() == ss.first());
        assert(ss.push(t).drop_first() =~= ss.drop_first().push(t));
        lemma_enc_site_list_snoc(ss.drop_first(), t);
        assert(enc_site_list(ss.push(t)) == enc_site(ss.first()) + enc_site_list(ss.drop_first().push(t)));
        assert(enc_site_list(ss) == enc_site(ss.first()) + enc_site_list(ss.drop_first()));
        assert(enc_site_list(ss.push(t)) =~= enc_site_list(ss) + enc_site(t));
    }
}

/// Appending one lease to the log appends its encoding to the log's.
pub proof fn lemma_enc_lease_list_snoc(ls: Seq<LeaseView>, t: LeaseView)
    ensures
        enc_lease_list(ls.push(t)) == enc_lease_list(ls) + enc_lease(t),
    decreases ls.len(),
{
    if ls.len() == 0 {
        assert(ls.push(t).first() == t);
        assert(ls.push(t).drop_first() =~= Seq::<LeaseView>::empty());
        assert(enc_lease_list(ls.push(t)) == enc_lease(t) + enc_lease_list(Seq::<LeaseView>::empty()));
        assert(enc_lease_list(Seq::<LeaseView>::empty()) == Seq::<char>::empty());
        assert(enc_lease_list(ls) == Seq::<char>::empty());
        assert(enc_lease_list(ls.push(t)) =~= enc_lease_list(ls) + enc_lease(t));
    } else {
        assert(ls.push(t).first() == ls.first());
        assert(ls.push(t).drop_first() =~= ls.drop_first().push(t));
        lemma_enc_lease_list_snoc(ls.drop_first(), t);
        assert(enc_lease_list(ls.push(t)) == enc_lease(ls.first()) + enc_lease_list(ls.drop_first().push(t)));
        assert(enc_lease_list(ls) == enc_lease(ls.first()) + enc_lease_list(ls.drop_first()));
        assert(enc_lease_list(ls.push(t)) =~= enc_lease_list(ls) + enc_lease(t));
    }
}

/// Appending one message to the queue appends its encoding to the queue's.
pub proof fn lemma_enc_error_list_snoc(es: Seq<Seq<char>>, t: Seq<char>)
    ensures
        enc_error_list(es.push(t)) == enc_error_list(es) + enc_str(t),
    decreases es.len(),
{
    if es.len() == 0 {
        assert(es.push(t).first() == t);
        assert(es.push(t).drop_first() =~= Seq::<Seq<char>>::empty());
        assert(enc_error_list(es.push(t)) == enc_str(t) + enc_error_list(Seq::<Seq<char>>::empty()));
        assert(enc_error_list(Seq::<Seq<char>>::empty()) == Seq::<char>::empty());
        assert(enc_error_list(es) == Seq::<char>::empty());
        assert(enc_error_list(es.push(t)) =~= enc_error_list(es) + enc_str(t));
    } else {
        assert(es.push(t).first() == es.first());
        assert(es.push(t).drop_first() =~= es.drop_first().push(t));
        lemma_enc_error_list_snoc(es.drop_first(), t);
        assert(enc_error_list(es.push(t)) == enc_str(es.first()) + enc_error_list(es.drop_first().push(t)));
        assert(enc_error_list(es) == enc_str(es.first()) + enc_error_list(es.drop_first()));
        assert(enc_error_list(es.push(t)) =~= enc_error_list(es) + enc_str(t));
    }
}

/// Write the decimal digits of a number.
fn push_digits(out: &mut Vec<char>, n: u64)
    ensures
        final(out)@ == old(out)@ + dec_digits(n as nat),
    decreases n,
{
    if n < 10 {
        let c = ((n as u8) + 48) as char;
        out.push(c);
        assert(out@ =~= old(out)@ + dec_digits(n as nat));
    } else {
        push_digits(out, n / 10);
        let c = (((n % 10) as u8) + 48) as char;
        out.push(c);
        assert(out@ =~= old(out)@ + dec_digits(n as nat));
    }
}

/// Write an encoded number.
fn push_num(out: &mut Vec<char>, n: u64)
    ensures
        final(out)@ == old(out)@ + enc_num(n as nat),
{
    push_digits(out, n);
    out.push(';');
    assert(out@ =~= old(out)@ + enc_num(n as nat));
}

/// Write an encoded string.
fn push_str(out: &mut Vec<char>, s: &String)
    ensures
        final(out)@ == old(out)@ + enc_str(s@),
        str_ok(s@),
{
    let len = s.as_str().unicode_len();
    push_num(out, len as u64);
    let ghost base = out@;
    let mut i: usize = 0;
    while i < len
        invariant
            len == s@.len(),
            0 <= i <= len,
            out@ == base + s@.subrange(0, i as int),
        decreases len - i,
    {
        out.push(s.as_str().get_char(i));
        i = i + 1;
        assert(out@ =~= base + s@.subrange(0, i as int));
    }
    assert(s@.subrange(0, len as int) =~= s@);
    assert(out@ =~= old(out)@ + enc_str(s@));
}

/// Write an encoded kind.
fn push_kind(out: &mut Vec<char>, k: &SiteKind)
    ensures
        final(out)@ == old(out)@ + enc_kind(k@),
        (k@ matches SiteKindView::Other(t) ==> str_ok(t)),
{
    match k {
        SiteKind::Cabin => {
            out.push('c');
            assert(out@ =~= old(out)@ + enc_kind(k@));
        },
        SiteKind::Flat => {
            out.push('f');
            assert(out@ =~= old(out)@ + enc_kind(k@));
        },
        SiteKind::House => {
            out.push('h');
            assert(out@ =~= old(out)@ + enc_kind(k@));
        },
        SiteKind::Other(t) => {
            out.push('o');
            push_str(out, t);
            assert(out@ =~= old(out)@ + enc_kind(k@));
        },
    }
}

/// Write an encoded tenant.
fn push_tenant(out: &mut Vec<char>, t: &Tenant)
    ensures
        final(out)@ == old(out)@ + enc_tenant(t@),
        str_ok(t@.name),
        str_ok(t@.contact),
{
    push_str(out, &t.name);
    push_str(out, &t.contact);
    assert(out@ =~= old(out)@ + enc_tenant(t@));
}

/// Write an encoded site.
fn push_site(out: &mut Vec<char>, s: &Site)
    ensures
        final(out)@ == old(out)@ + enc_site(s@),
        str_ok(s@.number),
        (s@.kind matches SiteKindView::Other(t) ==> str_ok(t)),
{
    push_str(out, &s.number);
    push_kind(out, &s.kind);
    assert(out@ =~= old(out)@ + enc_site(s@));
}

/// Write an encoded term.
fn push_term(out: &mut Vec<char>, t: &Term)
    ensures
        final(out)@ == old(out)@ + enc_term(*t),
{
    push_num(out, t.start.year as u64);
    push_num(out, t.start.month as u64);
    push_num(out, t.start.day as u64);
    push_num(out, t.duration as u64);
    push_num(out, t.rent as u64);
    assert(out@ =~= old(out)@ + enc_term(*t));
}

/// Write an encoded lease.
fn push_lease(out: &mut Vec<char>, l: &Lease)
    ensures
        final(out)@ == old(out)@ + enc_lease(l@),
        str_ok(l@.tenant_name),
        str_ok(l@.site_number),
{
    push_str(out, &l.tenant_name);
    push_str(out, &l.site_number);
    push_term(out, &l.term);
    assert(out@ =~= old(out)@ + enc_lease(l@));
}

/// Encode a whole ledger into its blob, character by character.
pub fn encode(s: &State) -> (out: Vec<char>)
    ensures
        out@ == enc_state(s@),
        encodable(s@),
{
    let mut out: Vec<char> = Vec::new();

    push_num(&mut out, s.tenants.len() as u64);
    let ghost b1 = out@;
    let mut i: usize = 0;
    while i < s.tenants.len()
        invariant
            0 <= i <= s.tenants@.len(),
            out@ == b1 + enc_tenant_list(s@.tenants.subrange(0, i as int)),
            forall|j: int|
                0 <= j < i ==> str_ok((#[trigger] s@.tenants[j]).name) && str_ok(
                    s@.tenants[j].contact,
                ),
        decreases s.tenants@.len() - i,
    {
        push_tenant(&mut out, &s.tenants[i]);
        proof {
            lemma_enc_tenant_list_snoc(s@.tenants.subrange(0, i as int), s@.tenants[i as int]);
            assert(s@.tenants.subrange(0, i + 1) =~= s@.tenants.subrange(0, i as int).push(
                s@.tenants[i as int],
            ));
            assert(out@ =~= b1 + enc_tenant_list(s@.tenants.subrange(0, i + 1)));
        }
        i = i + 1;
    }
    assert(s@.tenants.subrange(0, s.tenants@.len() as int) =~= s@.tenants);

    push_num(&mut out, s.sites.len() as u64);
    let ghost b2 = out@;
    let mut i: usize = 0;
    while i < s.sites.len()
        invariant
            0 <= i <= s.sites@.len(),
            out@ == b2 + enc_site_list(s@.sites.subrange(0, i as int)),
            forall|j: int|
                0 <= j < i ==> str_ok((#[trigger] s@.sites[j]).number) && ((s@.sites[j].kind)
                    matches SiteKindView::Other(t) ==> str_ok(t)),
        decreases s.sites@.len() - i,
    {
        push_site(&mut out, &s.sites[i]);
        proof {
            lemma_enc_site_list_snoc(s@.sites.subrange(0, i as int), s@.sites[i as int]);
            assert(s@.sites.subrange(0, i + 1) =~= s@.sites.subrange(0, i as int).push(
                s@.sites[i as int],
            ));
            assert(out@ =~= b2 + enc_site_list(s@.sites.subrange(0, i + 1)));
        }
        i = i + 1;
    }
    assert(s@.sites.subrange(0, s.sites@.len() as int) =~= s@.sites);

    push_num(&mut out, s.leases.len() as u64);
    let ghost b3 = out@;
    let mut i: usize = 0;
    while i < s.leases.len()
        invariant
            0 <= i <= s.leases@.len(),
            out@ == b3 + enc_lease_list(s@.leases.subrange(0, i as int)),
            forall|j: int|
                0 <= j < i ==> str_ok((#[trigger] s@.leases[j]).tenant_name) && str_ok(
                    s@.leases[j].site_number,
                ),
        decreases s.leases@.len() - i,
    {
        push_lease(&mut out, &s.leases[i]);
        proof {
            lemma_enc_lease_list_snoc(s@.leases.subrange(0, i as int), s@.leases[i as int]);
            assert(s@.leases.subrange(0, i + 1) =~= s@.leases.subrange(0, i as int).push(
                s@.leases[i as int],
            ));
            assert(out@ =~= b3 + enc_lease_list(s@.leases.subrange(0, i + 1)));
        }
        i = i + 1;
    }
    assert(s@.leases.subrange(0, s.leases@.len() as int) =~= s@.leases);

    push_num(&mut out, s.errors.len() as u64);
    let ghost b4 = out@;
    let mut i: usize = 0;
    while i < s.errors.len()
        invariant
            0 <= i <= s.errors@.len(),
            out@ == b4 + enc_error_list(s@.errors.subrange(0, i as int)),
            forall|j: int| 0 <= j < i ==> str_ok(#[trigger] s@.errors[j]),
        decreases s.errors@.len() - i,
    {
        push_str(&mut out, &s.errors[i]);
        proof {
            lemma_enc_error_list_snoc(s@.errors.subrange(0, i as int), s@.errors[i as int]);
            assert(s@.errors.subrange(0, i + 1) =~= s@.errors.subrange(0, i as int).push(
                s@.errors[i as int],
            ));
            assert(out@ =~= b4 + enc_error_list(s@.errors.subrange(0, i + 1)));
        }
        i = i + 1;
    }
    assert(s@.errors.subrange(0, s.errors@.len() as int) =~= s@.errors);

    assert(out@ =~= enc_state(s@));
    out
}


/// Read a number from the blob at position `i`.
fn parse_num(v: &Vec<char>, i: usize) -> (r: Option<(u64, usize)>)
    ensures
        (r is Some) == (parse_num_spec(v@, i as int) is Some),
        r matches Some(p) ==> (parse_num_spec(v@, i as int) matches Some(q) && p.0 as int == q.0
            && p.1 as int == q.1 && i < p.1 <= v@.len()),
{
    let n = v.len();
    if i > n {
        return None;
    }
    let mut j = i;
    let mut acc: u128 = 0;
    loop
        invariant
            n == v@.len(),
            i <= j <= n,
            forall|m: int| i <= m < j ==> is_digit(v@[m]),
            scan_digits(v@, i as int) == scan_digits(v@, j as int),
            ({
                let p = seq_val(v@.subrange(i as int, j as int));
                &&& (p <= u64::MAX ==> acc == p)
                &&& (p > u64::MAX ==> acc > u64::MAX)
            }),
            acc <= u64::MAX as u128 * 10 + 9,
        ensures
            n == v@.len(),
            i <= j <= n,
            scan_digits(v@, i as int) == j as int,
            ({
                let p = seq_val(v@.subrange(i as int, j as int));
                &&& (p <= u64::MAX ==> acc == p)
                &&& (p > u64::MAX ==> acc > u64::MAX)
            }),
        decreases n - j,
    {
        if j == n {
            assert(scan_digits(v@, j as int) == j as int);
            break;
        }
        let c = v[j];
        if c < '0' || c > '9' {
            assert(!is_digit(v@[j as int]));
            assert(scan_digits(v@, j as int) == j as int);
            break;
        }
        assert(is_digit(v@[j as int]));
        let x = c as u32;
        assert(48 <= x <= 57);
        assert(scan_digits(v@, j as int) == scan_digits(v@, j as int + 1));
        let d = (x - 48) as u128;
        proof {
            let pre = v@.subrange(i as int, j as int);
            let post = v@.subrange(i as int, j as int + 1);
            assert(post.drop_last() =~= pre);
            assert(post.last() == v@[j as int]);
            assert(seq_val(post) == seq_val(pre) * 10 + digit_val(v@[j as int]));
        }
        if acc <= u64::MAX as u128 {
            acc = acc * 10 + d;
        }
        j = j + 1;
    }
    if j == i {
        return None;
    }
    if acc > u64::MAX as u128 {
        return None;
    }
    if j == n {
        return None;
    }
    let c = v[j];
    if c != ';' {
        return None;
    }
    Some((acc as u64, j + 1))
}

/// Read a string from the blob at position `i`.
fn parse_str(v: &Vec<char>, i: usize) -> (r: Option<(String, usize)>)
    ensures
        (r is Some) == (parse_str_spec(v@, i as int) is Some),
        r matches Some(p) ==> (parse_str_spec(v@, i as int) matches Some(q) && p.0@ == q.0 && p.1
            as int == q.1 && p.1 <= v@.len()),
{
    match parse_num(v, i) {
        None => None,
        Some((len64, j)) => {
            let rem = v.len() - j;
            if len64 > rem as u64 {
                None
            } else {
                let len = len64 as usize;
                let n = v.len();
                let mut t = String::new();
                let mut k: usize = 0;
                while k < len
                    invariant
                        n == v@.len(),
                        j + len <= n,
                        0 <= k <= len,
                        t@ == v@.subrange(j as int, j as int + k as int),
                    decreases len - k,
                {
                    crate::text::push_char(&mut t, v[j + k]);
                    k = k + 1;
                    assert(t@ =~= v@.subrange(j as int, j as int + k as int));
                }
                Some((t, j + len))
            }
        },
    }
}

/// Read a site kind from the blob at position `i`.
fn parse_kind(v: &Vec<char>, i: usize) -> (r: Option<(SiteKind, usize)>)
    ensures
        (r is Some) == (parse_kind_spec(v@, i as int) is Some),
        r matches Some(p) ==> (parse_kind_spec(v@, i as int) matches Some(q) && p.0@ == q.0 && p.1
            as int == q.1 && p.1 <= v@.len()),
{
    if i >= v.len() {
        return None;
    }
    let c = v[i];
    if c == 'c' {
        Some((SiteKind::Cabin, i + 1))
    } else if c == 'f' {
        Some((SiteKind::Flat, i + 1))
    } else if c == 'h' {
        Some((SiteKind::House, i + 1))
    } else if c == 'o' {
        match parse_str(v, i + 1) {
            Some((t, j)) => Some((SiteKind::Other(t), j)),
            None => None,
        }
    } else {
        None
    }
}

/// Read a tenant from the blob at position `i`.
fn parse_tenant(v: &Vec<char>, i: usize) -> (r: Option<(Tenant, usize)>)
    ensures
        (r is Some) == (parse_tenant_spec(v@, i as int) is Some),
        r matches Some(p) ==> (parse_tenant_spec(v@, i as int) matches Some(q) && p.0@ == q.0 && p.1
            as int == q.1 && p.1 <= v@.len()),
{
    match parse_str(v, i) {
        None => None,
        Some((name, j)) => match parse_str(v, j) {
            None => None,
            Some((contact, k)) => Some((Tenant { name, contact }, k)),
        },
    }
}

/// Read a site from the blob at position `i`.
fn parse_site(v: &Vec<char>, i: usize) -> (r: Option<(Site, usize)>)
    ensures
        (r is Some) == (parse_site_spec(v@, i as int) is Some),
        r matches Some(p) ==> (parse_site_spec(v@, i as int) matches Some(q) && p.0@ == q.0 && p.1
            as int == q.1 && p.1 <= v@.len()),
{
    match parse_str(v, i) {
        None => None,
        Some((number, j)) => match parse_kind(v, j) {
            None => None,
            Some((kind, k)) => Some((Site { number, kind }, k)),
        },
    }
}

/// Read a term from the blob at position `i`.
fn parse_term(v: &Vec<char>, i: usize) -> (r: Option<(Term, usize)>)
    ensures
        (r is Some) == (parse_term_spec(v@, i as int) is Some),
        r matches Some(p) ==> (parse_term_spec(v@, i as int) matches Some(q) && p.0 == q.0 && p.1
            as int == q.1 && p.1 <= v@.len()),
{
    let (y, j1) = match parse_num(v, i) {
        Some(p) => p,
        None => { return None; },
    };
    let (mo, j2) = match parse_num(v, j1) {
        Some(p) => p,
        None => { return None; },
    };
    let (d, j3) = match parse_num(v, j2) {
        Some(p) => p,
        None => { return None; },
    };
    let (du, j4) = match parse_num(v, j3) {
        Some(p) => p,
        None => { return None; },
    };
    let (re, j5) = match parse_num(v, j4) {
        Some(p) => p,
        None => { return None; },
    };
    if y > u32::MAX as u64 || mo > u32::MAX as u64 || d > u32::MAX as u64 || du > u32::MAX as u64
        || re > u32::MAX as u64 {
        return None;
    }
    Some(
        (
            Term {
                start: Date { year: y as u32, month: mo as u32, day: d as u32 },
                duration: du as u32,
                rent: re as u32,
            },
            j5,
        ),
    )
}

/// Read a lease from the blob at position `i`.
fn parse_lease(v: &Vec<char>, i: usize) -> (r: Option<(Lease, usize)>)
    ensures
        (r is Some) == (parse_lease_spec(v@, i as int) is Some),
        r matches Some(p) ==> (parse_lease_spec(v@, i as int) matches Some(q) && p.0@ == q.0 && p.1
            as int == q.1 && p.1 <= v@.len()),
{
    match parse_str(v, i) {
        None => None,
        Some((tenant_name, j)) => match parse_str(v, j) {
            None => None,
            Some((site_number, k)) => match parse_term(v, k) {
                None => None,
                Some((term, m)) => Some((Lease { tenant_name, site_number, term }, m)),
            },
        },
    }
}

/// Read `n` tenants in a row from position `i`.
fn parse_tenant_list(v: &Vec<char>, i: usize, n: u64) -> (r: Option<(Vec<Tenant>, usize)>)
    ensures
        (r is Some) == (parse_tenant_list_spec(v@, i as int, n as nat) is Some),
        r matches Some(p) ==> (parse_tenant_list_spec(v@, i as int, n as nat) matches Some(q)
            && p.0@.map_values(|t: Tenant| t@) == q.0 && p.1 as int == q.1),
{
    let mut acc: Vec<Tenant> = Vec::new();
    let mut pos = i;
    let mut rem = n;
    while rem > 0
        invariant
            ({
                let whole = parse_tenant_list_spec(v@, i as int, n as nat);
                let tail = parse_tenant_list_spec(v@, pos as int, rem as nat);
                &&& (whole is Some) == (tail is Some)
                &&& (tail matches Some(q) ==> whole == Some(
                    (acc@.map_values(|t: Tenant| t@) + q.0, q.1),
                ))
            }),
        decreases rem,
    {
        let ghost accv = acc@.map_values(|t: Tenant| t@);
        match parse_tenant(v, pos) {
            None => {
                return None;
            },
            Some((t, j)) => {
                proof {
                    let tl = parse_tenant_list_spec(v@, j as int, (rem - 1) as nat);
                    match tl {
                        Some((ts, k)) => {
                            assert(parse_tenant_list_spec(v@, pos as int, rem as nat) == Some(
                                (seq![t@] + ts, k),
                            ));
                            assert(accv + (seq![t@] + ts) =~= accv.push(t@) + ts);
                            assert(acc@.push(t).map_values(|x: Tenant| x@) =~= accv.push(t@));
                        },
                        None => {},
                    }
                }
                acc.push(t);
                pos = j;
                rem = rem - 1;
            },
        }
    }
    proof {
        let tail = parse_tenant_list_spec(v@, pos as int, 0);
        assert(tail == Some((Seq::<TenantView>::empty(), pos as int)));
        let whole = parse_tenant_list_spec(v@, i as int, n as nat);
        assert(acc@.map_values(|t: Tenant| t@) + Seq::<TenantView>::empty() =~= acc@.map_values(
            |t: Tenant| t@,
        ));
    }
    Some((acc, pos))
}

/// Read `n` sites in a row from position `i`.
fn parse_site_list(v: &Vec<char>, i: usize, n: u64) -> (r: Option<(Vec<Site>, usize)>)
    ensures
        (r is Some) == (parse_site_list_spec(v@, i as int, n as nat) is Some),
        r matches Some(p) ==> (parse_site_list_spec(v@, i as int, n as nat) matches Some(q)
            && p.0@.map_values(|t: Site| t@) == q.0 && p.1 as int == q.1),
{
    let mut acc: Vec<Site> = Vec::new();
    let mut pos = i;
    let mut rem = n;
    while rem > 0
        invariant
            ({
                let whole = parse_site_list_spec(v@, i as int, n as nat);
                let tail = parse_site_list_spec(v@, pos as int, rem as nat);
                &&& (whole is Some) == (tail is Some)
                &&& (tail matches Some(q) ==> whole == Some(
                    (acc@.map_values(|t: Site| t@) + q.0, q.1),
                ))
            }),
        decreases rem,
    {
        let ghost accv = acc@.map_values(|t: Site| t@);
        match parse_site(v, pos) {
            None => {
                return None;
            },
            Some((t, j)) => {
                proof {
                    let tl = parse_site_list_spec(v@, j as int, (rem - 1) as nat);
                    match tl {
                        Some((ts, k)) => {
                            assert(parse_site_list_spec(v@, pos as int, rem as nat) == Some(
                                (seq![t@] + ts, k),
                            ));
                            assert(accv + (seq![t@] + ts) =~= accv.push(t@) + ts);
                            assert(acc@.push(t).map_values(|x: Site| x@) =~= accv.push(t@));
                        },
                        None => {},
                    }
                }
                acc.push(t);
                pos = j;
                rem = rem - 1;
            },
        }
    }
    proof {
        let tail = parse_site_list_spec(v@, pos as int, 0);
        assert(tail == Some((Seq::<SiteView>::empty(), pos as int)));
        assert(acc@.map_values(|t: Site| t@) + Seq::<SiteView>::empty() =~= acc@.map_values(
            |t: Site| t@,
        ));
    }
    Some((acc, pos))
}

/// Read `n` leases in a row from position `i`.
fn parse_lease_list(v: &Vec<char>, i: usize, n: u64) -> (r: Option<(Vec<Lease>, usize)>)
    ensures
        (r is Some) == (parse_lease_list_spec(v@, i as int, n as nat) is Some),
        r matches Some(p) ==> (parse_lease_list_spec(v@, i as int, n as nat) matches Some(q)
            && p.0@.map_values(|t: Lease| t@) == q.0 && p.1 as int == q.1),
{
    let mut acc: Vec<Lease> = Vec::new();
    let mut pos = i;
    let mut rem = n;
    while rem > 0
        invariant
            ({
                let whole = parse_lease_list_spec(v@, i as int, n as nat);
                let tail = parse_lease_list_spec(v@, pos as int, rem as nat);
                &&& (whole is Some) == (tail is Some)
                &&& (tail matches Some(q) ==> whole == Some(
                    (acc@.map_values(|t: Lease| t@) + q.0, q.1),
                ))
            }),
        decreases rem,
    {
        let ghost accv = acc@.map_values(|t: Lease| t@);
        match parse_lease(v, pos) {
            None => {
                return None;
            },
            Some((t, j)) => {
                proof {
                    let tl = parse_lease_list_spec(v@, j as int, (rem - 1) as nat);
                    match tl {
                        Some((ts, k)) => {
                            assert(parse_lease_list_spec(v@, pos as int, rem as nat) == Some(
                                (seq![t@] + ts, k),
                            ));
                            assert(accv + (seq![t@] + ts) =~= accv.push(t@) + ts);
                            assert(acc@.push(t).map_values(|x: Lease| x@) =~= accv.push(t@));
                        },
                        None => {},
                    }
                }
                acc.push(t);
                pos = j;
                rem = rem - 1;
            },
        }
    }
    proof {
        let tail = parse_lease_list_spec(v@, pos as int, 0);
        assert(tail == Some((Seq::<LeaseView>::empty(), pos as int)));
        assert(acc@.map_values(|t: Lease| t@) + Seq::<LeaseView>::empty() =~= acc@.map_values(
            |t: Lease| t@,
        ));
    }
    Some((acc, pos))
}

/// Read `n` error messages in a row from position `i`.
fn parse_error_list(v: &Vec<char>, i: usize, n: u64) -> (r: Option<(Vec<String>, usize)>)
    ensures
        (r is Some) == (parse_error_list_spec(v@, i as int, n as nat) is Some),
        r matches Some(p) ==> (parse_error_list_spec(v@, i as int, n as nat) matches Some(q)
            && p.0@.map_values(|t: String| t@) == q.0 && p.1 as int == q.1),
{
    let mut acc: Vec<String> = Vec::new();
    let mut pos = i;
    let mut rem = n;
    while rem > 0
        invariant
            ({
                let whole = parse_error_list_spec(v@, i as int, n as nat);
                let tail = parse_error_list_spec(v@, pos as int, rem as nat);
                &&& (whole is Some) == (tail is Some)
                &&& (tail matches Some(q) ==> whole == Some(
                    (acc@.map_values(|t: String| t@) + q.0, q.1),
                ))
            }),
        decreases rem,
    {
        let ghost accv = acc@.map_values(|t: String| t@);
        match parse_str(v, pos) {
            None => {
                return None;
            },
            Some((t, j)) => {
                proof {
                    let tl = parse_error_list_spec(v@, j as int, (rem - 1) as nat);
                    match tl {
                        Some((ts, k)) => {
                            assert(parse_error_list_spec(v@, pos as int, rem as nat) == Some(
                                (seq![t@] + ts, k),
                            ));
                            assert(accv + (seq![t@] + ts) =~= accv.push(t@) + ts);
                            assert(acc@.push(t).map_values(|x: String| x@) =~= accv.push(t@));
                        },
                        None => {},
                    }
                }
                acc.push(t);
                pos = j;
                rem = rem - 1;
            },
        }
    }
    proof {
        let tail = parse_error_list_spec(v@, pos as int, 0);
        assert(tail == Some((Seq::<Seq<char>>::empty(), pos as int)));
        assert(acc@.map_values(|t: String| t@) + Seq::<Seq<char>>::empty() =~= acc@.map_values(
            |t: String| t@,
        ));
    }
    Some((acc, pos))
}

/// Decode a whole blob back into a ledger, or report that it does not parse.
pub fn decode(v: &Vec<char>) -> (r: Option<State>)
    ensures
        (r is Some) == (decode_spec(v@) is Some),
        r matches Some(st) ==> (decode_spec(v@) matches Some(q) && st@ == q),
{
    let (nt, i1) = match parse_num(v, 0) {
        Some(p) => p,
        None => { return None; },
    };
    let (tenants, i2) = match parse_tenant_list(v, i1, nt) {
        Some(p) => p,
        None => { return None; },
    };
    let (ns, i3) = match parse_num(v, i2) {
        Some(p) => p,
        None => { return None; },
    };
    let (sites, i4) = match parse_site_list(v, i3, ns) {
        Some(p) => p,
        None => { return None; },
    };
    let (nl, i5) = match parse_num(v, i4) {
        Some(p) => p,
        None => { return None; },
    };
    let (leases, i6) = match parse_lease_list(v, i5, nl) {
        Some(p) => p,
        None => { return None; },
    };
    let (ne, i7) = match parse_num(v, i6) {
        Some(p) => p,
        None => { return None; },
    };
    let (errors, i8) = match parse_error_list(v, i7, ne) {
        Some(p) => p,
        None => { return None; },
    };
    if i8 != v.len() {
        return None;
    }
    let st = State { tenants, sites, leases, errors };
    proof {
        assert(st@ =~= decode_spec(v@)->0);
    }
    Some(st)
}


/// Serialize the whole ledger into its blob. Called after every command so
/// that even error state survives a reload.
pub fn store(s: &State) -> (r: String)
    ensures
        r@ == enc_state(s@),
        encodable(s@),
{
    let chars = encode(s);
    let n = chars.len();
    let mut r = String::new();
    let mut i: usize = 0;
    while i < n
        invariant
            n == chars@.len(),
            0 <= i <= n,
            r@ == chars@.subrange(0, i as int),
        decreases n - i,
    {
        crate::text::push_char(&mut r, chars[i]);
        i = i + 1;
        assert(r@ =~= chars@.subrange(0, i as int));
    }
    assert(r@ =~= chars@);
    r
}

/// Deserialize a previously stored blob, or fall back to the empty ledger
/// when the blob does not parse or breaks the ledger invariant. The
/// fallback is deliberate best effort: a read failure is swallowed, never
/// surfaced.
pub fn restore(blob: &str) -> (r: State)
    ensures
        ({
            let d = decode_spec(blob@);
            &&& (d matches Some(v) ==> (if v.wf() {
                r@ == v
            } else {
                r@ == StateView::empty()
            }))
            &&& (d is None ==> r@ == StateView::empty())
        }),
        r@.wf(),
{
    let n = blob.unicode_len();
    let mut v: Vec<char> = Vec::new();
    let mut i: usize = 0;
    while i < n
        invariant
            n == blob@.len(),
            0 <= i <= n,
            v@ == blob@.subrange(0, i as int),
        decreases n - i,
    {
        v.push(blob.get_char(i));
        i = i + 1;
        assert(v@ =~= blob@.subrange(0, i as int));
    }
    assert(v@ =~= blob@);
    match decode(&v) {
        Some(st) => {
            if st.check_wf() {
                st
            } else {
                State::default()
            }
        },
        None => State::default(),
    }
}

} // verus!
