//! Reading a listing's record out of the markup of its page.
use vstd::prelude::*;
use crate::area::Area;
use crate::cond::Condition;
use crate::error::{Error, ErrorKind, Part};
use crate::listing::{Kind as ListingKind, Listing, ListingView};
use crate::lookup::{Lookup, first_match, Rules};
use crate::markup::{css_inner, css_outer, css_attr, select_inner, select_outer, select_attr};
use crate::pattern::{matches_in, capture_in, all_in, Pattern, compiled_from, compile_opt, finds_in, capture_with, all_with};
use crate::plot::{Kind as PlotKind, Plot, PlotView};
use crate::property::{Kind as PropertyKind, Property, PropertyView};
use crate::site::Website;
use crate::text::{
    all_digits, decimal_value, parse_unsigned, trimmed, unsigned_digits, chars_of, trim_chars, is_digit,
    parse_unsigned_chars, parse_unsigned_str,
};
use crate::time::Timestamp;

verus! {

pub const U32_MAX: u32 = 0xffff_ffff;

/// The first item of a sequence.
pub open spec fn first_of<T>(s: Seq<T>) -> Option<T> {
    if s.len() > 0 {
        Some(s[0])
    } else {
        None
    }
}

/// The first item in which `pattern` matches.
pub open spec fn first_with(items: Seq<Seq<char>>, pattern: Seq<char>) -> Option<Seq<char>>
    decreases items.len(),
{
    if items.len() == 0 {
        None
    } else if matches_in(pattern, items[0]) {
        Some(items[0])
    } else {
        first_with(items.drop_first(), pattern)
    }
}

/// The position of the first `a` or `b` in `s`, or its length.
pub open spec fn index_of(s: Seq<char>, a: char, b: char) -> nat
    decreases s.len(),
{
    if s.len() == 0 {
        0
    } else if s[0] == a || s[0] == b {
        0
    } else {
        1 + index_of(s.drop_first(), a, b)
    }
}

/// `n` zero digits.
pub open spec fn zeros(n: nat) -> Seq<char> {
    Seq::new(n, |i: int| '0')
}

/// An exponent: an optional sign, then one or more digits.
pub open spec fn exponent_of(x: Seq<char>) -> Option<int> {
    let d = if x.len() > 0 && (x[0] == '+' || x[0] == '-') {
        x.drop_first()
    } else {
        x
    };
    if d.len() > 0 && all_digits(d) {
        if x[0] == '-' {
            Some(-(decimal_value(d) as int))
        } else {
            Some(decimal_value(d) as int)
        }
    } else {
        None
    }
}

/// The parts of a price as written in the page, in the syntax of a decimal
/// floating-point number: an optional sign, digits with at most one point
/// among them (at least one digit in all), and an optional exponent (`e` or
/// `E`, an optional sign, digits). The parts are whether it is negative, its
/// digits without the point, how many of them follow the point, and the
/// exponent.
pub open spec fn price_parts(s: Seq<char>) -> Option<(bool, Seq<char>, nat, int)> {
    let neg = s.len() > 0 && s[0] == '-';
    let body = if s.len() > 0 && (s[0] == '+' || s[0] == '-') {
        s.drop_first()
    } else {
        s
    };
    let ei = index_of(body, 'e', 'E') as int;
    let mant = body.take(ei);
    let exp = if ei < body.len() {
        exponent_of(body.skip(ei + 1))
    } else {
        Some(0int)
    };
    let k = index_of(mant, '.', '.') as int;
    let whole = mant.take(k);
    let frac = if k < mant.len() {
        mant.skip(k + 1)
    } else {
        Seq::empty()
    };
    if all_digits(whole) && all_digits(frac) && whole.len() + frac.len() > 0 && exp is Some {
        Some((neg, whole + frac, frac.len(), exp->0))
    } else {
        None
    }
}

/// The digits left of the point once the point, `frac_len` digits from the
/// end of `digits`, is moved by the exponent `e`.
pub open spec fn kept_digits(digits: Seq<char>, frac_len: nat, e: int) -> Seq<char> {
    let shift = e - frac_len;
    if shift >= 0 {
        digits + zeros(shift as nat)
    } else if digits.len() + shift >= 0 {
        digits.take(digits.len() + shift)
    } else {
        Seq::empty()
    }
}

/// The number truncated toward zero, as a currency amount: unsigned and 32
/// bits wide, so a negative number whose truncation is not zero, or a value
/// that does not fit, is no price.
pub open spec fn price_value(neg: bool, digits: Seq<char>, frac_len: nat, e: int) -> Option<u32> {
    let v = decimal_value(kept_digits(digits, frac_len, e));
    if neg {
        if v == 0 {
            Some(0u32)
        } else {
            None
        }
    } else if v <= U32_MAX {
        Some(v as u32)
    } else {
        None
    }
}

/// A price as written in the page, read as a floating-point number and
/// truncated to a currency amount.
pub open spec fn price_of_text(s: Seq<char>) -> Option<u32> {
    match price_parts(s) {
        Some((neg, digits, frac_len, e)) => price_value(neg, digits, frac_len, e),
        None => None,
    }
}

/// An exponent with its magnitude capped at `EXP_CAP`.
pub open spec fn capped(e: int) -> int {
    if e >= EXP_CAP {
        EXP_CAP as int
    } else if e <= -EXP_CAP {
        -EXP_CAP
    } else {
        e
    }
}

/// The least of the numbers that the texts read as.
pub open spec fn least_number(s: Seq<Seq<char>>) -> Option<u32>
    decreases s.len(),
{
    if s.len() == 0 {
        None
    } else {
        let rest = least_number(s.drop_last());
        match parse_unsigned(s.last(), U32_MAX as nat) {
            None => rest,
            Some(v) => match rest {
                Some(m) => if (v as u32) < m {
                    Some(v as u32)
                } else {
                    Some(m)
                },
                None => Some(v as u32),
            },
        }
    }
}

pub open spec fn studio_pattern() -> Seq<char> {
    "[Ss]tudio"@
}

pub open spec fn bedrooms_pattern() -> Seq<char> {
    "[Bb]edrooms*"@
}

pub open spec fn bathrooms_pattern() -> Seq<char> {
    "[Bb]athrooms*"@
}

pub open spec fn postal_pattern() -> Seq<char> {
    "[Pp]ostal\\s+[Cc]ode"@
}

pub open spec fn integer_pattern() -> Seq<char> {
    "[0-9]+"@
}

pub open spec fn size_pattern() -> Seq<char> {
    "([0-9]+) m²"@
}

pub open spec fn year_pattern() -> Seq<char> {
    "(20[0-3][0-9])|(19[0-9][0-9])"@
}

/// The number of bedrooms in a characteristics fragment. A studio has none,
/// whatever else the fragment says; otherwise it is the link text of the first
/// list item that mentions bedrooms. The count is optional: there is none
/// where no item mentions bedrooms, where that item has no link, or where the
/// link does not read as a small number.
pub open spec fn bedrooms_of(chars: Seq<char>) -> Option<u8> {
    if matches_in(studio_pattern(), chars) {
        Some(0)
    } else {
        match first_with(css_inner(chars, "li"@), bedrooms_pattern()) {
            None => None,
            Some(li) => match first_of(css_inner(li, "a"@)) {
                None => None,
                Some(t) => match parse_unsigned(trimmed(t), 255) {
                    Some(v) => Some(v as u8),
                    None => None,
                },
            },
        }
    }
}

/// The number in the first span holding digits of the first list item whose
/// text matches `label`, where it reads as a number of at most `max`.
pub open spec fn labelled_number(chars: Seq<char>, label: Seq<char>, max: nat) -> Option<nat> {
    match first_with(css_inner(chars, "li"@), label) {
        None => None,
        Some(li) => match first_with(css_inner(li, "span"@), integer_pattern()) {
            None => None,
            Some(span) => parse_unsigned(trimmed(span), max),
        },
    }
}

/// The size in a characteristics fragment: the number before `m²`.
pub open spec fn size_of(chars: Seq<char>) -> Option<u32> {
    match capture_in(size_pattern(), chars, 1) {
        Some(Some(g)) => match parse_unsigned(g, U32_MAX as nat) {
            Some(v) => Some(v as u32),
            None => None,
        },
        _ => None,
    }
}

/// The earliest year that a description mentions.
pub open spec fn year_of(desc: Seq<char>) -> Option<u32> {
    least_number(all_in(year_pattern(), desc))
}

/// The coverage patterns, tried in this order, with the group that holds the
/// number: English with the number first, English with the number last, and
/// the same two in Greek, in the other order.
pub open spec fn coverage_rules() -> Seq<(Seq<char>, nat)> {
    seq![
        ("(?i)([0-9]+)\\s*%(\\s+max(imum)?)?(\\s+build(ing)?)?\\s+cover(age)?(\\s+((coefficient)|(factor)))?"@, 1nat),
        ("(?i)(max(imum)?\\s+)?(build(ing)?\\s+)?cover(age)?\\s*(((coefficient)|(factor))\\s*)?(is\\s+)?(of\\s+)?(:\\s*)?([0-9]+)\\s*%"@, 13nat),
        ("(?i)(μ[έε]γιστο(ς)?\\s+)?(συντελεστ[ήη](ς)?\\s+)?κ[αά]λυψη(ς)?\\s*(:\\s*)?([0-9]+)\\s*%"@, 7nat),
        ("(?i)([0-9]+)\\s*%(\\s+μ[έε]γιστο(ς)?)?(\\s+συντελεστ[ήη](ς)?)?\\s+κ[αά]λυψη(ς)?"@, 1nat),
    ]
}

/// The coverage factor by the first rule whose pattern matches. The factor
/// is optional: there is none where no rule matches, where the matching
/// rule's group took no part, or where its number does not fit in 32 bits.
pub open spec fn coverage_by(rules: Seq<(Seq<char>, nat)>, text: Seq<char>) -> Option<u32>
    decreases rules.len(),
{
    if rules.len() == 0 {
        None
    } else {
        match capture_in(rules[0].0, text, rules[0].1) {
            None => coverage_by(rules.drop_first(), text),
            Some(None) => None,
            Some(Some(g)) => match parse_unsigned(g, U32_MAX as nat) {
                Some(v) => Some(v as u32),
                None => None,
            },
        }
    }
}

pub open spec fn coverage_of(text: Seq<char>) -> Option<u32> {
    coverage_by(coverage_rules(), text)
}

pub open spec fn sku_selector() -> Seq<char> {
    "span[itemprop=\"sku\"]"@
}

pub open spec fn price_selector() -> Seq<char> {
    "meta[itemprop=\"price\"]"@
}

pub open spec fn address_selector() -> Seq<char> {
    "span[itemprop=\"address\"]"@
}

pub open spec fn breadcrumbs_selector() -> Seq<char> {
    "ul.breadcrumbs"@
}

pub open spec fn chars_selector() -> Seq<char> {
    "div.announcement-characteristics"@
}

pub open spec fn desc_selector() -> Seq<char> {
    "div.announcement-description"@
}

/// The price text: the `content` of the first price element.
pub open spec fn price_text(m: Seq<char>) -> Option<Seq<char>> {
    match first_of(css_attr(m, price_selector(), "content"@)) {
        Some(Some(t)) => Some(t),
        _ => None,
    }
}

/// The record that a listing page of the Bazaraki site describes, read at
/// `ts` from `url`; or the first part, in reading order, that is missing or
/// unreadable.
pub open spec fn bazaraki_record(m: Seq<char>, url: Seq<char>, ts: Timestamp) -> Result<
    ListingView,
    Part,
> {
    let sku = first_of(css_inner(m, sku_selector()));
    let address = first_of(css_inner(m, address_selector()));
    let crumbs = first_of(css_outer(m, breadcrumbs_selector()));
    let chars = first_of(css_inner(m, chars_selector()));
    let desc = first_of(css_inner(m, desc_selector()));
    if sku is None {
        Err(Part::Id)
    } else if price_text(m) is None || price_of_text(price_text(m)->0) is None {
        Err(Part::Price)
    } else if address is None || first_match(<Area as Lookup>::rules(), address->0) is None {
        Err(Part::Address)
    } else if crumbs is None {
        Err(Part::Breadcrumbs)
    } else if chars is None {
        Err(Part::Characteristics)
    } else if desc is None {
        Err(Part::Description)
    } else {
        let id = "bazaraki_"@ + sku->0;
        let price = price_of_text(price_text(m)->0)->0;
        let area = first_match(<Area as Lookup>::rules(), address->0)->0;
        let c = chars->0;
        let d = desc->0;
        let size = size_of(c);
        match first_match(<ListingKind as Lookup>::rules(), crumbs->0) {
            None => Err(Part::ListingKind),
            Some(ListingKind::Property) => {
                match first_match(<PropertyKind as Lookup>::rules(), c) {
                    None => Err(Part::PropertyKind),
                    Some(kind) => match bedrooms_of(c) {
                        n_bedrooms => Ok(
                            ListingView::Property(
                                PropertyView {
                                    id,
                                    url,
                                    website: Website::Bazaraki,
                                    timestamp: ts,
                                    kind,
                                    price,
                                    area,
                                    size,
                                    cond: first_match(<Condition as Lookup>::rules(), c),
                                    year: year_of(d),
                                    n_bedrooms,
                                    n_bathrooms: match labelled_number(c, bathrooms_pattern(), 255) {
                                        Some(v) => Some(v as u8),
                                        None => None,
                                    },
                                    post_code: match labelled_number(c, postal_pattern(), U32_MAX as nat) {
                                        Some(v) => Some(v as u32),
                                        None => None,
                                    },
                                },
                            ),
                        ),
                    },
                }
            },
            Some(ListingKind::Plot) => {
                match coverage_of(d) {
                    coverage => Ok(
                        ListingView::Plot(
                            PlotView {
                                id,
                                url,
                                website: Website::Bazaraki,
                                timestamp: ts,
                                price,
                                area,
                                kind: first_match(<PlotKind as Lookup>::rules(), c),
                                size,
                                coverage,
                                density: None,
                                height: None,
                                storeys: None,
                            },
                        ),
                    ),
                }
            },
        }
    }
}

/// The first of the strings in which the pattern compiled from `source` matches.
fn find_first(items: &Vec<String>, p: &Option<Pattern>, Ghost(source): Ghost<Seq<char>>) -> (r: Option<usize>)
    requires
        compiled_from(*p, source),
    ensures
        match first_with(crate::text::views(items@), source) {
            None => r is None,
            Some(t) => r matches Some(i) && i < items.len() && items@[i as int]@ == t,
        },
{
    let ghost all = crate::text::views(items@);
    let mut i: usize = 0;
    assert(all.skip(0) == all);
    while i < items.len()
        invariant
            compiled_from(*p, source),
            i <= items.len(),
            all == crate::text::views(items@),
            first_with(all, source) == first_with(all.skip(i as int), source),
        decreases items.len() - i,
    {
        assert(all.skip(i as int)[0] == items@[i as int]@);
        assert(all.skip(i as int).drop_first() == all.skip(i + 1));
        if finds_in(p, Ghost(source), items[i].as_str()) {
            return Some(i);
        }
        i = i + 1;
    }
    None
}

/// The first string, if any.
fn first_string(items: &Vec<String>) -> (r: Option<&String>)
    ensures
        match first_of(crate::text::views(items@)) {
            None => r is None,
            Some(t) => r matches Some(s) && s@ == t,
        },
{
    if items.len() > 0 {
        Some(&items[0])
    } else {
        None
    }
}

/// The number of bedrooms in a characteristics fragment.
pub fn parse_bedrooms(chars: &str) -> (r: Option<u8>)
    ensures
        r == bedrooms_of(chars@),
        matches_in(studio_pattern(), chars@) ==> r == Some(0u8),
{
    let parser = ListingParser::new();
    parser.bedrooms(chars)
}

/// The number of the first list item whose text matches `label`.
pub fn parse_labelled_number(chars: &str, label: &str, max: u32) -> (r: Option<u32>)
    ensures
        match labelled_number(chars@, label@, max as nat) {
            Some(v) => r == Some(v as u32),
            None => r is None,
        },
{
    let parser = ListingParser::new();
    let compiled = compile_opt(label);
    parser.labelled(chars, &compiled, Ghost(label@), max)
}

/// The size, in square metres, in a characteristics fragment.
pub fn parse_size(chars: &str) -> (r: Option<u32>)
    ensures
        r == size_of(chars@),
{
    let parser = ListingParser::new();
    parser.size(chars)
}

/// The earliest year that a description mentions.
pub fn parse_year(desc: &str) -> (r: Option<u32>)
    ensures
        r == year_of(desc@),
{
    let parser = ListingParser::new();
    parser.year(desc)
}

/// The position of the first `a` or `b` in `v` between `from` and `to`, or `to`.
fn find_char(v: &Vec<char>, from: usize, to: usize, a: char, b: char) -> (r: usize)
    requires
        from <= to <= v.len(),
    ensures
        from <= r <= to,
        r - from == index_of(v@.subrange(from as int, to as int), a, b),
{
    let ghost d = v@.subrange(from as int, to as int);
    let mut k: usize = from;
    assert(d.skip(0) == d);
    while k < to && v[k] != a && v[k] != b
        invariant
            from <= k <= to <= v.len(),
            d == v@.subrange(from as int, to as int),
            index_of(d, a, b) == (k - from) + index_of(d.skip(k - from), a, b),
        decreases to - k,
    {
        assert(d.skip(k - from).drop_first() == d.skip(k - from + 1));
        k = k + 1;
    }
    assert(index_of(d.skip(k - from), a, b) == 0);
    k
}

/// The characters of `v` from `from` to `to`.
fn slice_chars(v: &Vec<char>, from: usize, to: usize) -> (r: Vec<char>)
    requires
        from <= to <= v.len(),
    ensures
        r@ == v@.subrange(from as int, to as int),
{
    let mut r: Vec<char> = Vec::new();
    let mut i: usize = from;
    while i < to
        invariant
            from <= i <= to <= v.len(),
            r@ == v@.subrange(from as int, i as int),
        decreases to - i,
    {
        r.push(v[i]);
        i = i + 1;
    }
    r
}

/// Whether every character of `v` is a digit, and whether every one is `0`.
fn digit_kinds(v: &Vec<char>) -> (r: (bool, bool))
    ensures
        r.0 == all_digits(v@),
        r.1 == (forall|i: int| 0 <= i < v@.len() ==> #[trigger] v@[i] == '0'),
{
    let mut digits = true;
    let mut zero = true;
    let mut i: usize = 0;
    while i < v.len()
        invariant
            i <= v.len(),
            digits == (forall|j: int| 0 <= j < i ==> is_digit(#[trigger] v@[j])),
            zero == (forall|j: int| 0 <= j < i ==> #[trigger] v@[j] == '0'),
        decreases v.len() - i,
    {
        let c = v[i];
        let d = '0' <= c && c <= '9';
        proof {
            if !d {
                assert(!is_digit(v@[i as int]));
            }
            if c != '0' {
                assert(v@[i as int] != '0');
            }
        }
        digits = digits && d;
        zero = zero && c == '0';
        i = i + 1;
    }
    (digits, zero)
}

/// The largest exponent magnitude told apart: beyond it every price is
/// either zero or too large.
pub const EXP_CAP: i128 = 0x40_0000_0000_0000_0000;

/// The value of the digits of `v`, or `EXP_CAP` where it is larger.
fn capped_value(v: &Vec<char>) -> (r: i128)
    requires
        all_digits(v@),
    ensures
        r == if decimal_value(v@) < EXP_CAP { decimal_value(v@) as int } else { EXP_CAP as int },
{
    let mut acc: i128 = 0;
    let mut i: usize = 0;
    while i < v.len()
        invariant
            i <= v.len(),
            all_digits(v@),
            acc == if decimal_value(v@.take(i as int)) < EXP_CAP { decimal_value(v@.take(i as int)) as int } else { EXP_CAP as int },
        decreases v.len() - i,
    {
        let c = v[i];
        assert(is_digit(v@[i as int]));
        let d: i128 = (c as u32 - 48) as i128;
        assert(v@.take(i + 1).drop_last() == v@.take(i as int));
        assert(v@.take(i + 1).last() == c);
        let next: i128 = if acc >= EXP_CAP { EXP_CAP } else {
            let t = acc * 10 + d;
            if t >= EXP_CAP { EXP_CAP } else { t }
        };
        acc = next;
        i = i + 1;
    }
    assert(v@.take(i as int) == v@);
    acc
}

proof fn lemma_zeros_value(s: Seq<char>)
    requires
        forall|i: int| 0 <= i < s.len() ==> #[trigger] s[i] == '0',
    ensures
        decimal_value(s) == 0,
    decreases s.len(),
{
    if s.len() > 0 {
        assert forall|i: int| 0 <= i < s.drop_last().len() implies #[trigger] s.drop_last()[i] == '0' by {
            assert(s.drop_last()[i] == s[i]);
        }
        lemma_zeros_value(s.drop_last());
        assert(s[s.len() - 1] == '0');
    }
}

proof fn lemma_nonzero_value(s: Seq<char>)
    requires
        all_digits(s),
        !(forall|i: int| 0 <= i < s.len() ==> #[trigger] s[i] == '0'),
    ensures
        decimal_value(s) >= 1,
    decreases s.len(),
{
    let init = s.drop_last();
    assert(is_digit(s[s.len() - 1]));
    if s.last() == '0' {
        assert forall|i: int| 0 <= i < init.len() implies is_digit(#[trigger] init[i]) by {
            assert(init[i] == s[i]);
        }
        if forall|i: int| 0 <= i < init.len() ==> #[trigger] init[i] == '0' {
            assert forall|i: int| 0 <= i < s.len() implies #[trigger] s[i] == '0' by {
                if i < init.len() {
                    assert(init[i] == s[i]);
                }
            }
        }
        lemma_nonzero_value(init);
    }
}

proof fn lemma_shifted_value(s: Seq<char>, n: nat)
    ensures
        decimal_value(s + zeros(n)) == decimal_value(s) * crate::time::pow10(n),
    decreases n,
{
    if n > 0 {
        lemma_shifted_value(s, (n - 1) as nat);
        assert((s + zeros(n)).drop_last() == s + zeros((n - 1) as nat));
        assert((s + zeros(n)).last() == '0');
        let a = decimal_value(s);
        let p = crate::time::pow10((n - 1) as nat);
        assert(crate::text::digit_value('0') == 0);
        assert(decimal_value(s + zeros(n)) == decimal_value(s + zeros((n - 1) as nat)) * 10 + crate::text::digit_value('0'));
        assert(crate::time::pow10(n) == 10 * p);
        assert((a * p) * 10 == a * (10 * p)) by (nonlinear_arith);
        assert(decimal_value(s + zeros(n)) == a * crate::time::pow10(n));
    } else {
        assert(s + zeros(0) =~= s);
        assert(crate::time::pow10(0) == 1);
        assert(decimal_value(s) * 1 == decimal_value(s));
    }
}

/// The exponent written in `v` from `from` on, its magnitude capped.
fn read_exponent(v: &Vec<char>, from: usize) -> (r: Option<i128>)
    requires
        from <= v.len(),
    ensures
        match exponent_of(v@.subrange(from as int, v.len() as int)) {
            None => r is None,
            Some(e) => r == Some(capped(e) as i128),
        },
{
    let n = v.len();
    let ghost x = v@.subrange(from as int, n as int);
    let mut es: usize = from;
    if es < n && (v[es] == '+' || v[es] == '-') {
        es = es + 1;
    }
    let ed = slice_chars(v, es, n);
    assert(ed@ == if x.len() > 0 && (x[0] == '+' || x[0] == '-') { x.drop_first() } else { x });
    let (ed_ok, _) = digit_kinds(&ed);
    if ed.len() == 0 || !ed_ok {
        return None;
    }
    let m = capped_value(&ed);
    if v[from] == '-' {
        Some(-m)
    } else {
        Some(m)
    }
}

/// The parts of a price as the page writes it, the exponent capped.
#[verifier::rlimit(50)]
fn read_price_parts(v: &Vec<char>) -> (r: Option<(bool, Vec<char>, usize, i128)>)
    ensures
        match price_parts(v@) {
            None => r is None,
            Some((neg, digits, frac_len, e)) => r matches Some((n2, d2, f2, e2)) && n2 == neg
                && d2@ == digits && f2 == frac_len && e2 == capped(e),
        },
{
    let n = v.len();
    let neg = n > 0 && v[0] == '-';
    let start: usize = if n > 0 && (v[0] == '+' || v[0] == '-') {
        1
    } else {
        0
    };
    let ghost body = if v@.len() > 0 && (v@[0] == '+' || v@[0] == '-') {
        v@.drop_first()
    } else {
        v@
    };
    assert(body == v@.subrange(start as int, n as int));
    let ei = find_char(v, start, n, 'e', 'E');
    let ghost mant = body.take(ei - start);
    assert(mant == v@.subrange(start as int, ei as int));
    let k = find_char(v, start, ei, '.', '.');
    let whole = slice_chars(v, start, k);
    assert(whole@ == mant.take(k - start));
    let frac = if k < ei {
        let f = slice_chars(v, k + 1, ei);
        assert(f@ == mant.skip(k - start + 1));
        f
    } else {
        Vec::new()
    };
    let (whole_ok, _) = digit_kinds(&whole);
    let (frac_ok, _) = digit_kinds(&frac);
    if !whole_ok || !frac_ok || whole.len() + frac.len() == 0 {
        return None;
    }
    let exp: i128 = if ei < n {
        assert(body.skip(ei - start + 1) == v@.subrange(ei + 1, n as int));
        match read_exponent(v, ei + 1) {
            Some(x) => x,
            None => return None,
        }
    } else {
        0
    };
    let frac_len = frac.len();
    let mut digits = whole;
    let mut fr = frac;
    digits.append(&mut fr);
    Some((neg, digits, frac_len, exp))
}

/// The truncated value of a price from its parts, the exponent capped.
fn truncate_price(neg: bool, digits: &Vec<char>, frac_len: usize, exp: i128, Ghost(e): Ghost<int>) -> (r: Option<u32>)
    requires
        all_digits(digits@),
        frac_len <= digits.len(),
        exp == capped(e),
    ensures
        r == price_value(neg, digits@, frac_len as nat, e),
{
    let ghost kept_spec = kept_digits(digits@, frac_len as nat, e);
    let (_, all_zero) = digit_kinds(digits);
    if all_zero {
        proof {
            assert forall|i: int| 0 <= i < kept_spec.len() implies #[trigger] kept_spec[i] == '0' by {
                if e - frac_len >= 0 {
                    if i < digits@.len() {
                        assert(kept_spec[i] == digits@[i]);
                    }
                } else {
                    assert(kept_spec[i] == digits@[i]);
                }
            }
            lemma_zeros_value(kept_spec);
        }
        return Some(0);
    }
    let fl: i128 = frac_len as i128;
    let dl: i128 = digits.len() as i128;
    let shift: i128 = exp - fl;
    let kept: Vec<char> = if shift >= 0 {
        if shift > 10 {
            proof {
                lemma_nonzero_value(digits@);
                let sh = (e - frac_len) as nat;
                lemma_shifted_value(digits@, sh);
                crate::time::lemma_pow10_mono(11, sh);
                assert(crate::time::pow10(11) == 100000000000) by {
                    reveal_with_fuel(crate::time::pow10, 12);
                }
                let a = decimal_value(digits@);
                let p = crate::time::pow10(sh);
                assert(a * p >= p) by (nonlinear_arith)
                    requires
                        a >= 1,
                        p >= 0,
                ;
            }
            return None;
        }
        let mut t = digits.clone();
        let mut j: i128 = 0;
        while j < shift
            invariant
                0 <= j <= shift <= 10,
                t@ == digits@ + zeros(j as nat),
            decreases shift - j,
        {
            t.push('0');
            assert(t@ =~= digits@ + zeros((j + 1) as nat));
            j = j + 1;
        }
        t
    } else if dl + shift >= 0 {
        let m = (dl + shift) as usize;
        slice_chars(digits, 0, m)
    } else {
        Vec::new()
    };
    assert(kept@ == kept_spec);
    if kept.len() == 0 {
        return Some(0);
    }
    assert(is_digit(kept@[0]));
    assert(unsigned_digits(kept@) == kept@);
    assert forall|i: int| 0 <= i < kept@.len() implies is_digit(#[trigger] kept@[i]) by {
        if shift >= 0 {
            if i >= digits@.len() {
                assert(kept@[i] == '0');
            }
        }
    }
    let value = parse_unsigned_chars(&kept, U32_MAX);
    if neg {
        match value {
            Some(0) => Some(0),
            _ => None,
        }
    } else {
        value
    }
}

/// The whole part of a price as the page writes it.
pub fn parse_price(s: &str) -> (r: Option<u32>)
    ensures
        r == price_of_text(s@),
{
    let v = chars_of(s);
    match read_price_parts(&v) {
        None => None,
        Some((neg, digits, frac_len, exp)) => {
            let ghost e = match price_parts(s@) {
                Some((_, _, _, x)) => x,
                None => 0,
            };
            truncate_price(neg, &digits, frac_len, exp, Ghost(e))
        },
    }
}

/// The coverage patterns, compiled once for many descriptions.
pub struct CoverageParser {
    patterns: Vec<Option<Pattern>>,
}

impl CoverageParser {
    /// Each pattern of `coverage_rules`, compiled where it compiles.
    pub closed spec fn wf(&self) -> bool {
        &&& self.patterns.len() == 4
        &&& forall|i: int|
            0 <= i < 4 ==> match #[trigger] self.patterns@[i] {
                Some(p) => p.source() == coverage_rules()[i].0 && crate::pattern::regex_compiles(
                    p.source(),
                ),
                None => !crate::pattern::regex_compiles(coverage_rules()[i].0),
            }
    }

    pub fn new() -> (r: CoverageParser)
        ensures
            r.wf(),
    {
        let patterns = vec![
            Pattern::new("(?i)([0-9]+)\\s*%(\\s+max(imum)?)?(\\s+build(ing)?)?\\s+cover(age)?(\\s+((coefficient)|(factor)))?"),
            Pattern::new("(?i)(max(imum)?\\s+)?(build(ing)?\\s+)?cover(age)?\\s*(((coefficient)|(factor))\\s*)?(is\\s+)?(of\\s+)?(:\\s*)?([0-9]+)\\s*%"),
            Pattern::new("(?i)(μ[έε]γιστο(ς)?\\s+)?(συντελεστ[ήη](ς)?\\s+)?κ[αά]λυψη(ς)?\\s*(:\\s*)?([0-9]+)\\s*%"),
            Pattern::new("(?i)([0-9]+)\\s*%(\\s+μ[έε]γιστο(ς)?)?(\\s+συντελεστ[ήη](ς)?)?\\s+κ[αά]λυψη(ς)?"),
        ];
        CoverageParser { patterns }
    }

    /// The coverage factor, in percent, that a description states.
    pub fn parse(&self, from: &str) -> (r: Option<u32>)
        requires
            self.wf(),
        ensures
            r == coverage_of(from@),
    {
        let groups: [usize; 4] = [1, 13, 7, 1];
        let ghost all = coverage_rules();
        assert(groups@ =~= seq![1usize, 13usize, 7usize, 1usize]);
        let mut i: usize = 0;
        assert(all.skip(0) == all);
        while i < 4
            invariant
                self.wf(),
                i <= 4,
                all == coverage_rules(),
                groups@ == seq![1usize, 13usize, 7usize, 1usize],
                coverage_by(all, from@) == coverage_by(all.skip(i as int), from@),
            decreases 4 - i,
        {
            let group = groups[i];
            assert(all[i as int].1 == group as nat);
            assert(all.skip(i as int)[0] == all[i as int]);
            assert(all.skip(i as int).drop_first() == all.skip(i + 1));
            let got: Option<Option<String>> = match &self.patterns[i] {
                Some(p) => p.captures(from, group),
                None => None,
            };
            assert(match got {
                None => capture_in(all[i as int].0, from@, group as nat) is None,
                Some(g) => capture_in(all[i as int].0, from@, group as nat) == Some(crate::text::opt_view(g)),
            });
            match got {
                None => {},
                Some(None) => {
                    return None;
                },
                Some(Some(g)) => {
                    return parse_unsigned_str(g.as_str(), U32_MAX);
                },
            }
            i = i + 1;
        }
        assert(all.skip(4) =~= Seq::<(Seq<char>, nat)>::empty());
        None
    }
}

/// The coverage factor, in percent, that a description states.
pub fn parse_coverage(from: &str) -> (r: Option<u32>)
    ensures
        r == coverage_of(from@),
{
    let parser = CoverageParser::new();
    parser.parse(from)
}

fn missing(part: Part) -> (e: Error)
    ensures
        e.kind == ErrorKind::Structure(part),
{
    Error::new(ErrorKind::Structure(part), "a part of the listing is missing or unreadable")
}

/// What reading a listing page of `website` gives: for the Bazaraki site, the
/// record its markup describes or an error naming the part that is missing;
/// for another site, an error of kind `Other`.
pub open spec fn listing_read(
    website: Website,
    markup: Seq<char>,
    url: Seq<char>,
    timestamp: Timestamp,
    r: Result<Listing, Error>,
) -> bool {
    if website == Website::Bazaraki {
        match bazaraki_record(markup, url, timestamp) {
            Ok(v) => r matches Ok(l) && l@ == v,
            Err(p) => r matches Err(e) && e.kind == ErrorKind::Structure(p),
        }
    } else {
        r matches Err(e) && e.kind == ErrorKind::Other
    }
}

/// Reads the record of a listing page of the Bazaraki site, fetched from
/// `url` at `timestamp`.
pub fn parse_bazaraki(markup: &str, url: &str, timestamp: Timestamp) -> (r: Result<Listing, Error>)
    ensures
        match bazaraki_record(markup@, url@, timestamp) {
            Ok(v) => r matches Ok(l) && l@ == v,
            Err(p) => r matches Err(e) && e.kind == ErrorKind::Structure(p),
        },
{
    let parser = ListingParser::new();
    parser.bazaraki(markup, url, timestamp)
}

impl Listing {
    /// Reads the record of a listing page of `website`; only the Bazaraki
    /// site's pages are read.
    pub fn try_from_html(markup: &str, url: &str, website: &Website, timestamp: Timestamp) -> (r: Result<Listing, Error>)
        ensures
            listing_read(*website, markup@, url@, timestamp, r),
    {
        let parser = ListingParser::new();
        parser.read(markup, url, website, timestamp)
    }
}

/// Every pattern that reading a listing uses, compiled once for many pages.
pub struct ListingParser {
    areas: Rules<Area>,
    kinds: Rules<ListingKind>,
    property_kinds: Rules<PropertyKind>,
    conditions: Rules<Condition>,
    plot_kinds: Rules<PlotKind>,
    studio: Option<Pattern>,
    bedrooms: Option<Pattern>,
    bathrooms: Option<Pattern>,
    postal: Option<Pattern>,
    integer: Option<Pattern>,
    size: Option<Pattern>,
    year: Option<Pattern>,
    coverage: CoverageParser,
}

impl ListingParser {
    /// Each table and pattern is the one the record's spec names.
    pub closed spec fn wf(&self) -> bool {
        &&& self.areas.wf() && self.areas.table() == <Area as Lookup>::rules()
        &&& self.kinds.wf() && self.kinds.table() == <ListingKind as Lookup>::rules()
        &&& self.property_kinds.wf() && self.property_kinds.table() == <PropertyKind as Lookup>::rules()
        &&& self.conditions.wf() && self.conditions.table() == <Condition as Lookup>::rules()
        &&& self.plot_kinds.wf() && self.plot_kinds.table() == <PlotKind as Lookup>::rules()
        &&& compiled_from(self.studio, studio_pattern())
        &&& compiled_from(self.bedrooms, bedrooms_pattern())
        &&& compiled_from(self.bathrooms, bathrooms_pattern())
        &&& compiled_from(self.postal, postal_pattern())
        &&& compiled_from(self.integer, integer_pattern())
        &&& compiled_from(self.size, size_pattern())
        &&& compiled_from(self.year, year_pattern())
        &&& self.coverage.wf()
    }

    pub fn new() -> (r: ListingParser)
        ensures
            r.wf(),
    {
        ListingParser {
            areas: Rules::compile(&Area::rule_table()),
            kinds: Rules::compile(&ListingKind::rule_table()),
            property_kinds: Rules::compile(&PropertyKind::rule_table()),
            conditions: Rules::compile(&Condition::rule_table()),
            plot_kinds: Rules::compile(&PlotKind::rule_table()),
            studio: compile_opt("[Ss]tudio"),
            bedrooms: compile_opt("[Bb]edrooms*"),
            bathrooms: compile_opt("[Bb]athrooms*"),
            postal: compile_opt("[Pp]ostal\\s+[Cc]ode"),
            integer: compile_opt("[0-9]+"),
            size: compile_opt("([0-9]+) m²"),
            year: compile_opt("(20[0-3][0-9])|(19[0-9][0-9])"),
            coverage: CoverageParser::new(),
        }
    }

    /// The number of bedrooms in a characteristics fragment.
    pub fn bedrooms(&self, chars: &str) -> (r: Option<u8>)
        requires
            self.wf(),
        ensures
            r == bedrooms_of(chars@),
            matches_in(studio_pattern(), chars@) ==> r == Some(0u8),
    {
        if finds_in(&self.studio, Ghost(studio_pattern()), chars) {
            return Some(0);
        }
        let items = select_inner(chars, "li");
        match find_first(&items, &self.bedrooms, Ghost(bedrooms_pattern())) {
            None => None,
            Some(i) => {
                let links = select_inner(items[i].as_str(), "a");
                match first_string(&links) {
                    None => None,
                    Some(t) => {
                        let v = chars_of(t.as_str());
                        let w = trim_chars(&v);
                        match parse_unsigned_chars(&w, 255) {
                            Some(n) => Some(n as u8),
                            None => None,
                        }
                    }
                }
            }
        }
    }

    /// The number of the first list item whose text matches the pattern
    /// compiled from `label`.
    fn labelled(&self, chars: &str, p: &Option<Pattern>, Ghost(label): Ghost<Seq<char>>, max: u32) -> (r: Option<u32>)
        requires
            self.wf(),
            compiled_from(*p, label),
        ensures
            match labelled_number(chars@, label, max as nat) {
                Some(v) => r == Some(v as u32),
                None => r is None,
            },
    {
        let items = select_inner(chars, "li");
        match find_first(&items, p, Ghost(label)) {
            None => None,
            Some(i) => {
                let spans = select_inner(items[i].as_str(), "span");
                match find_first(&spans, &self.integer, Ghost(integer_pattern())) {
                    None => None,
                    Some(j) => {
                        let v = chars_of(spans[j].as_str());
                        let w = trim_chars(&v);
                        parse_unsigned_chars(&w, max)
                    }
                }
            }
        }
    }

    /// The size, in square metres, in a characteristics fragment.
    pub fn size(&self, chars: &str) -> (r: Option<u32>)
        requires
            self.wf(),
        ensures
            r == size_of(chars@),
    {
        match capture_with(&self.size, Ghost(size_pattern()), chars, 1) {
            Some(Some(g)) => parse_unsigned_str(g.as_str(), U32_MAX),
            _ => None,
        }
    }

    /// The earliest year that a description mentions.
    pub fn year(&self, desc: &str) -> (r: Option<u32>)
        requires
            self.wf(),
        ensures
            r == year_of(desc@),
    {
        let found = all_with(&self.year, Ghost(year_pattern()), desc);
        let ghost all = crate::text::views(found@);
        let mut least: Option<u32> = None;
        let mut i: usize = 0;
        while i < found.len()
            invariant
                i <= found.len(),
                all == crate::text::views(found@),
                all == all_in(year_pattern(), desc@),
                least == least_number(all.take(i as int)),
            decreases found.len() - i,
        {
            let v = parse_unsigned_str(found[i].as_str(), U32_MAX);
            assert(all.take(i + 1).drop_last() == all.take(i as int));
            assert(all.take(i + 1).last() == found@[i as int]@);
            match v {
                Some(y) => {
                    least = match least {
                        Some(m) => if y < m {
                            Some(y)
                        } else {
                            Some(m)
                        },
                        None => Some(y),
                    };
                },
                None => {},
            }
            i = i + 1;
        }
        assert(all.take(i as int) == all);
        least
    }

    /// Reads the record of a listing page of `website`; only the Bazaraki
    /// site's pages are read.
    pub fn read(&self, markup: &str, url: &str, website: &Website, timestamp: Timestamp) -> (r: Result<Listing, Error>)
        requires
            self.wf(),
        ensures
            listing_read(*website, markup@, url@, timestamp, r),
    {
        match website {
            Website::Bazaraki => self.bazaraki(markup, url, timestamp),
            _ => Err(Error::new(ErrorKind::Other, "pages of this website are not read")),
        }
    }

    /// Reads the record of a listing page of the Bazaraki site, fetched from
    /// `url` at `timestamp`.
    pub fn bazaraki(&self, markup: &str, url: &str, timestamp: Timestamp) -> (r: Result<Listing, Error>)
        requires
            self.wf(),
        ensures
            match bazaraki_record(markup@, url@, timestamp) {
                Ok(v) => r matches Ok(l) && l@ == v,
                Err(p) => r matches Err(e) && e.kind == ErrorKind::Structure(p),
            },
    {
        let skus = select_inner(markup, "span[itemprop=\"sku\"]");
        let sku = match first_string(&skus) {
            Some(s) => s,
            None => return Err(missing(Part::Id)),
        };
        let prices = select_attr(markup, "meta[itemprop=\"price\"]", "content");
        if prices.len() == 0 {
            return Err(missing(Part::Price));
        }
        let price = match &prices[0] {
            Some(t) => match parse_price(t.as_str()) {
                Some(p) => p,
                None => return Err(missing(Part::Price)),
            },
            None => return Err(missing(Part::Price)),
        };
        let addresses = select_inner(markup, "span[itemprop=\"address\"]");
        let area = match first_string(&addresses) {
            Some(a) => match self.areas.classify(a.as_str()) {
                Some(area) => area,
                None => return Err(missing(Part::Address)),
            },
            None => return Err(missing(Part::Address)),
        };
        let crumbs_all = select_outer(markup, "ul.breadcrumbs");
        let crumbs = match first_string(&crumbs_all) {
            Some(c) => c,
            None => return Err(missing(Part::Breadcrumbs)),
        };
        let chars_all = select_inner(markup, "div.announcement-characteristics");
        let chars = match first_string(&chars_all) {
            Some(c) => c,
            None => return Err(missing(Part::Characteristics)),
        };
        let descs = select_inner(markup, "div.announcement-description");
        let desc = match first_string(&descs) {
            Some(d) => d,
            None => return Err(missing(Part::Description)),
        };
        let id = String::from_str("bazaraki_").concat(sku.as_str());
        let size = self.size(chars.as_str());
        let url_string = String::from_str(url);
        match self.kinds.classify(crumbs.as_str()) {
            None => Err(missing(Part::ListingKind)),
            Some(ListingKind::Property) => {
                let kind = match self.property_kinds.classify(chars.as_str()) {
                    Some(k) => k,
                    None => return Err(missing(Part::PropertyKind)),
                };
                let cond = self.conditions.classify(chars.as_str());
                let n_bedrooms = self.bedrooms(chars.as_str());
                let n_bathrooms = match self.labelled(chars.as_str(), &self.bathrooms, Ghost(bathrooms_pattern()), 255) {
                    Some(v) => Some(v as u8),
                    None => None,
                };
                let post_code = self.labelled(chars.as_str(), &self.postal, Ghost(postal_pattern()), U32_MAX);
                let year = self.year(desc.as_str());
                Ok(
                    Listing::Property(
                        Property::new(
                            id,
                            url_string,
                            Website::Bazaraki,
                            timestamp,
                            kind,
                            price,
                            area,
                            size,
                            cond,
                            year,
                            n_bedrooms,
                            n_bathrooms,
                            post_code,
                        ),
                    ),
                )
            },
            Some(ListingKind::Plot) => {
                let kind = self.plot_kinds.classify(chars.as_str());
                let coverage = self.coverage.parse(desc.as_str());
                Ok(
                    Listing::Plot(
                        Plot::new(
                            id,
                            url_string,
                            Website::Bazaraki,
                            timestamp,
                            price,
                            area,
                            kind,
                            size,
                            coverage,
                            None,
                            None,
                            None,
                        ),
                    ),
                )
            },
        }
    }
}

} // verus!
