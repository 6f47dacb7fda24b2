//! MAC addresses in their textual `AA:BB:CC:DD:EE:FF` form.
//!
//! The text is read byte by byte. Splitting on `:` and reading a field as a
//! base-16 number are both byte-level operations, so the contracts speak of
//! the UTF-8 bytes of the text.
use vstd::prelude::*;
use vstd::string::StringSliceAdditionalSpecFns;
use vstd::utf8::encode_utf8;

verus! {

/// The byte `:` that separates the fields of a MAC address.
pub const COLON: u8 = 58;

/// The byte `+`, which may lead a field.
pub const PLUS: u8 = 43;

/// The fields of `s` between the `:` bytes, in order; a text without a
/// `:` is a single field, and an empty text is one empty field.
pub open spec fn split_fields(s: Seq<u8>) -> Seq<Seq<u8>>
    decreases s.len(),
{
    if s.len() == 0 {
        seq![Seq::<u8>::empty()]
    } else {
        let prev = split_fields(s.drop_last());
        if s.last() == COLON {
            prev.push(Seq::<u8>::empty())
        } else {
            prev.update(prev.len() - 1, prev.last().push(s.last()))
        }
    }
}

pub open spec fn is_hex_digit(b: u8) -> bool {
    (48 <= b <= 57) || (65 <= b <= 70) || (97 <= b <= 102)
}

/// The value of a hexadecimal digit, of either case.
pub open spec fn hex_value(b: u8) -> nat {
    if 48 <= b <= 57 {
        (b - 48) as nat
    } else if 65 <= b <= 70 {
        (b - 55) as nat
    } else if 97 <= b <= 102 {
        (b - 87) as nat
    } else {
        0
    }
}

pub open spec fn all_hex_digits(s: Seq<u8>) -> bool {
    forall|i: int| 0 <= i < s.len() ==> is_hex_digit(#[trigger] s[i])
}

/// The number that a sequence of hexadecimal digits denotes, most significant first.
pub open spec fn hex_number(s: Seq<u8>) -> nat
    decreases s.len(),
{
    if s.len() == 0 {
        0
    } else {
        hex_number(s.drop_last()) * 16 + hex_value(s.last())
    }
}

/// The digits of a field: the field without a leading `+`, if it has one.
pub open spec fn field_digits(field: Seq<u8>) -> Seq<u8> {
    if field.len() > 0 && field[0] == PLUS {
        field.drop_first()
    } else {
        field
    }
}

/// A field read as an unsigned byte in base 16: an optional `+`, then at
/// least one hexadecimal digit of either case, denoting at most 255
/// (leading zeros are allowed).
pub open spec fn parse_hex_byte(field: Seq<u8>) -> Option<u8> {
    let digits = field_digits(field);
    if digits.len() > 0 && all_hex_digits(digits) && hex_number(digits) <= 255 {
        Some(hex_number(digits) as u8)
    } else {
        None
    }
}

/// A MAC address text read as six bytes: exactly six `:`-separated fields,
/// each a base-16 byte.
pub open spec fn parse_mac_spec(text: Seq<u8>) -> Option<Seq<u8>> {
    let fields = split_fields(text);
    if fields.len() == 6 && forall|i: int| 0 <= i < 6 ==> (#[trigger] parse_hex_byte(fields[i])) is Some {
        Some(Seq::new(6, |i: int| parse_hex_byte(fields[i]).unwrap()))
    } else {
        None
    }
}

/// The MAC addresses that can be read from `texts`, in order; texts that are
/// not MAC addresses are left out.
pub open spec fn parsed_macs(texts: Seq<Seq<u8>>) -> Seq<Seq<u8>>
    decreases texts.len(),
{
    if texts.len() == 0 {
        Seq::empty()
    } else {
        let prev = parsed_macs(texts.drop_last());
        match parse_mac_spec(texts.last()) {
            Some(mac) => prev.push(mac),
            None => prev,
        }
    }
}

/// The bytes of each text, in order.
pub open spec fn texts_bytes(texts: Seq<String>) -> Seq<Seq<u8>> {
    texts.map_values(|t: String| encode_utf8(t@))
}

/// The bytes of each MAC address, in order.
pub open spec fn mac_views(macs: Seq<[u8; 6]>) -> Seq<Seq<u8>> {
    macs.map_values(|m: [u8; 6]| m@)
}

/// Every MAC address read from text is six bytes long.
pub proof fn parsed_macs_are_six_bytes(texts: Seq<Seq<u8>>)
    ensures
        forall|i: int| 0 <= i < parsed_macs(texts).len() ==> (#[trigger] parsed_macs(texts)[i]).len()
            == 6,
    decreases texts.len(),
{
    if texts.len() > 0 {
        parsed_macs_are_six_bytes(texts.drop_last());
        let prev = parsed_macs(texts.drop_last());
        let all = parsed_macs(texts);
        assert forall|i: int| 0 <= i < all.len() implies (#[trigger] all[i]).len() == 6 by {
            if i < prev.len() {
                assert(all[i] == prev[i]);
            }
        }
    }
}

proof fn lemma_split_fields_nonempty(s: Seq<u8>)
    ensures
        split_fields(s).len() >= 1,
    decreases s.len(),
{
    if s.len() > 0 {
        lemma_split_fields_nonempty(s.drop_last());
    }
}

proof fn lemma_hex_number_monotone(s: Seq<u8>, k: int)
    requires
        0 <= k <= s.len(),
    ensures
        hex_number(s.take(k)) <= hex_number(s),
    decreases s.len(),
{
    if k < s.len() {
        lemma_hex_number_monotone(s.drop_last(), k);
        assert(s.drop_last().take(k) =~= s.take(k));
    } else {
        assert(s.take(k) =~= s);
    }
}

/// The hexadecimal digit for `v < 16`, in upper or lower case.
pub open spec fn hex_digit_byte(v: nat, upper: bool) -> u8 {
    if v < 10 {
        (48 + v) as u8
    } else if upper {
        (55 + v) as u8
    } else {
        (87 + v) as u8
    }
}

/// A byte as two hexadecimal digits.
pub open spec fn hex_pair(b: u8, upper: bool) -> Seq<u8> {
    seq![hex_digit_byte((b / 16) as nat, upper), hex_digit_byte((b % 16) as nat, upper)]
}

/// The usual text of a six-byte MAC address: two hexadecimal digits per
/// byte, separated by `:` (for instance `AA:BB:CC:DD:EE:FF`).
pub open spec fn mac_text(mac: Seq<u8>, upper: bool) -> Seq<u8> {
    hex_pair(mac[0], upper) + seq![COLON] + hex_pair(mac[1], upper) + seq![COLON] + hex_pair(
        mac[2],
        upper,
    ) + seq![COLON] + hex_pair(mac[3], upper) + seq![COLON] + hex_pair(mac[4], upper) + seq![COLON]
        + hex_pair(mac[5], upper)
}

proof fn lemma_split_fields_no_colon(s: Seq<u8>)
    requires
        forall|i: int| 0 <= i < s.len() ==> s[i] != COLON,
    ensures
        split_fields(s) == seq![s],
    decreases s.len(),
{
    if s.len() == 0 {
        assert(s =~= Seq::<u8>::empty());
    } else {
        lemma_split_fields_no_colon(s.drop_last());
        assert(s.last() != COLON);
        assert(s.drop_last().push(s.last()) =~= s);
        assert(seq![s.drop_last()].update(0, s.drop_last().push(s.last())) =~= seq![s]);
    }
}

proof fn lemma_split_fields_concat(x: Seq<u8>, y: Seq<u8>)
    ensures
        split_fields(x + seq![COLON] + y) == split_fields(x) + split_fields(y),
    decreases y.len(),
{
    let xc = x + seq![COLON];
    if y.len() == 0 {
        assert(xc + y =~= xc);
        assert(xc.drop_last() =~= x);
        assert(split_fields(x).push(Seq::<u8>::empty()) =~= split_fields(x) + split_fields(y));
    } else {
        lemma_split_fields_concat(x, y.drop_last());
        lemma_split_fields_nonempty(y.drop_last());
        let whole = xc + y;
        assert(whole.drop_last() =~= xc + y.drop_last());
        assert(whole.last() == y.last());
        let a = split_fields(x);
        let b = split_fields(y.drop_last());
        if y.last() == COLON {
            assert((a + b).push(Seq::<u8>::empty()) =~= a + b.push(Seq::<u8>::empty()));
        } else {
            assert((a + b).update((a + b).len() - 1, (a + b).last().push(y.last())) =~= a + b.update(
                b.len() - 1,
                b.last().push(y.last()),
            ));
        }
    }
}

proof fn lemma_hex_pair_parses(b: u8, upper: bool)
    ensures
        parse_hex_byte(hex_pair(b, upper)) == Some(b),
        forall|i: int| 0 <= i < hex_pair(b, upper).len() ==> hex_pair(b, upper)[i] != COLON,
{
    let p = hex_pair(b, upper);
    assert(field_digits(p) == p);
    assert(p.drop_last() =~= seq![p[0]]);
    assert(seq![p[0]].drop_last() =~= Seq::<u8>::empty());
    assert(hex_number(seq![p[0]]) == hex_value(p[0])) by {
        reveal_with_fuel(hex_number, 2);
    }
    assert(hex_number(p) == hex_value(p[0]) * 16 + hex_value(p[1]));
    assert(all_hex_digits(p));
}

/// A MAC address written as two hexadecimal digits per byte, separated by
/// `:`, in upper or lower case, reads back as the same six bytes.
pub proof fn parse_mac_reads_mac_text(mac: Seq<u8>, upper: bool)
    requires
        mac.len() == 6,
    ensures
        parse_mac_spec(mac_text(mac, upper)) == Some(mac),
{
    let p0 = hex_pair(mac[0], upper);
    let p1 = hex_pair(mac[1], upper);
    let p2 = hex_pair(mac[2], upper);
    let p3 = hex_pair(mac[3], upper);
    let p4 = hex_pair(mac[4], upper);
    let p5 = hex_pair(mac[5], upper);
    lemma_hex_pair_parses(mac[0], upper);
    lemma_hex_pair_parses(mac[1], upper);
    lemma_hex_pair_parses(mac[2], upper);
    lemma_hex_pair_parses(mac[3], upper);
    lemma_hex_pair_parses(mac[4], upper);
    lemma_hex_pair_parses(mac[5], upper);
    lemma_split_fields_no_colon(p0);
    lemma_split_fields_no_colon(p1);
    lemma_split_fields_no_colon(p2);
    lemma_split_fields_no_colon(p3);
    lemma_split_fields_no_colon(p4);
    lemma_split_fields_no_colon(p5);
    let c = seq![COLON];
    let t4 = p4 + c + p5;
    let t3 = p3 + c + t4;
    let t2 = p2 + c + t3;
    let t1 = p1 + c + t2;
    let t0 = p0 + c + t1;
    assert(mac_text(mac, upper) =~= t0);
    lemma_split_fields_concat(p4, p5);
    lemma_split_fields_concat(p3, t4);
    lemma_split_fields_concat(p2, t3);
    lemma_split_fields_concat(p1, t2);
    lemma_split_fields_concat(p0, t1);
    let fields = split_fields(t0);
    assert(fields =~= seq![p0, p1, p2, p3, p4, p5]);
    assert(Seq::new(6, |i: int| parse_hex_byte(fields[i]).unwrap()) =~= mac);
}

/// Collecting keeps every text that reads as a MAC address, whatever its
/// bytes, and only those: appending a readable text appends its address,
/// appending an unreadable one changes nothing, and no text gives nothing.
pub proof fn collected_macs_keep_every_readable_text(texts: Seq<Seq<u8>>, t: Seq<u8>)
    ensures
        parsed_macs(Seq::<Seq<u8>>::empty()) == Seq::<Seq<u8>>::empty(),
        parse_mac_spec(t) matches Some(m) ==> parsed_macs(texts.push(t)) == parsed_macs(texts).push(m),
        parse_mac_spec(t) is None ==> parsed_macs(texts.push(t)) == parsed_macs(texts),
        parsed_macs(texts.push(t)).len() <= parsed_macs(texts).len() + 1,
{
    assert(texts.push(t).drop_last() =~= texts);
    assert(texts.push(t).last() == t);
}

/// Any six bytes written in the usual text form are kept by collecting,
/// appended after what the earlier texts gave.
pub proof fn collected_macs_keep_every_mac_text(texts: Seq<Seq<u8>>, mac: Seq<u8>, upper: bool)
    requires
        mac.len() == 6,
    ensures
        parsed_macs(texts.push(mac_text(mac, upper))) == parsed_macs(texts).push(mac),
{
    parse_mac_reads_mac_text(mac, upper);
    collected_macs_keep_every_readable_text(texts, mac_text(mac, upper));
}

proof fn lemma_hex_number_leading_zero(f: Seq<u8>)
    ensures
        hex_number(seq![48u8] + f) == hex_number(f),
    decreases f.len(),
{
    let z = seq![48u8] + f;
    if f.len() == 0 {
        assert(z.drop_last() =~= Seq::<u8>::empty());
        assert(f =~= Seq::<u8>::empty());
        assert(hex_number(z) == 0) by {
            reveal_with_fuel(hex_number, 2);
        }
    } else {
        lemma_hex_number_leading_zero(f.drop_last());
        assert(z.drop_last() =~= seq![48u8] + f.drop_last());
        assert(z.last() == f.last());
    }
}

/// A leading `0` does not change what a field reads as, and neither does
/// a leading `+` on a field that has none.
pub proof fn field_reading_ignores_leading_zero_and_plus(f: Seq<u8>)
    requires
        f.len() > 0,
        f[0] != PLUS,
    ensures
        parse_hex_byte(seq![48u8] + f) == parse_hex_byte(f),
        parse_hex_byte(seq![PLUS] + f) == parse_hex_byte(f),
{
    let z = seq![48u8] + f;
    assert(field_digits(f) == f);
    assert(field_digits(z) == z);
    assert(field_digits(seq![PLUS] + f) =~= f);
    lemma_hex_number_leading_zero(f);
    assert(all_hex_digits(z) == all_hex_digits(f)) by {
        if all_hex_digits(f) {
            assert forall|i: int| 0 <= i < z.len() implies is_hex_digit(#[trigger] z[i]) by {
                if i > 0 {
                    assert(z[i] == f[i - 1]);
                }
            }
        }
        if all_hex_digits(z) {
            assert forall|i: int| 0 <= i < f.len() implies is_hex_digit(#[trigger] f[i]) by {
                assert(z[i + 1] == f[i]);
            }
        }
    }
}

fn hex_digit_value(b: u8) -> (r: Option<u8>)
    ensures
        r is Some <==> is_hex_digit(b),
        r matches Some(v) ==> v as nat == hex_value(b) && v < 16,
{
    if 48 <= b && b <= 57 {
        Some(b - 48)
    } else if 65 <= b && b <= 70 {
        Some(b - 55)
    } else if 97 <= b && b <= 102 {
        Some(b - 87)
    } else {
        None
    }
}

/// Reads one field as a base-16 byte.
fn parse_hex_field(field: &Vec<u8>) -> (r: Option<u8>)
    ensures
        r == parse_hex_byte(field@),
{
    let len = field.len();
    let mut start: usize = 0;
    if len > 0 && field[0] == PLUS {
        start = 1;
    }
    let ghost digits = field_digits(field@);
    assert(digits =~= field@.subrange(start as int, len as int));
    if start == len {
        return None;
    }
    let mut value: u32 = 0;
    let mut i: usize = start;
    while i < len
        invariant
            start <= i <= len,
            len == field@.len(),
            digits == field@.subrange(start as int, len as int),
            digits == field_digits(field@),
            all_hex_digits(digits.take(i - start)),
            value as nat == hex_number(digits.take(i - start)),
            value <= 255,
        decreases len - i,
    {
        let d = hex_digit_value(field[i]);
        let ghost prefix = digits.take(i - start + 1);
        assert(prefix.drop_last() =~= digits.take(i - start));
        assert(prefix.last() == field@[i as int]);
        match d {
            None => {
                assert(!all_hex_digits(digits)) by {
                    assert(digits[i - start] == field@[i as int]);
                }
                return None;
            },
            Some(v) => {
                value = value * 16 + v as u32;
                assert(all_hex_digits(prefix));
                if value > 255 {
                    proof {
                        if all_hex_digits(digits) {
                            lemma_hex_number_monotone(digits, i - start + 1);
                        }
                    }
                    return None;
                }
            },
        }
        i = i + 1;
    }
    assert(digits.take(len - start) =~= digits);
    Some(value as u8)
}

/// Splits the bytes of a text into its `:`-separated fields.
fn split_on_colons(bytes: &[u8]) -> (fields: Vec<Vec<u8>>)
    ensures
        fields@.map_values(|f: Vec<u8>| f@) == split_fields(bytes@),
{
    let mut done: Vec<Vec<u8>> = Vec::new();
    let mut cur: Vec<u8> = Vec::new();
    let mut i: usize = 0;
    while i < bytes.len()
        invariant
            i <= bytes@.len(),
            done@.map_values(|f: Vec<u8>| f@).push(cur@) == split_fields(bytes@.take(i as int)),
        decreases bytes@.len() - i,
    {
        let ghost before = done@.map_values(|f: Vec<u8>| f@).push(cur@);
        let ghost s = bytes@.take(i + 1);
        assert(s.drop_last() =~= bytes@.take(i as int));
        let b = bytes[i];
        if b == COLON {
            let finished = cur;
            done.push(finished);
            cur = Vec::new();
            assert(done@.map_values(|f: Vec<u8>| f@).push(cur@) =~= before.push(Seq::<u8>::empty()));
        } else {
            cur.push(b);
            assert(done@.map_values(|f: Vec<u8>| f@).push(cur@) =~= before.update(
                before.len() - 1,
                before.last().push(b),
            ));
        }
        i = i + 1;
    }
    assert(bytes@.take(i as int) =~= bytes@);
    done.push(cur);
    assert(done@.map_values(|f: Vec<u8>| f@) =~= split_fields(bytes@));
    done
}

/// Parse "AA:BB:CC:DD:EE:FF" into 6 raw bytes.
///
/// Returns `None` unless the text has exactly six `:`-separated fields, each
/// of which reads as a base-16 byte.
pub fn parse_mac(mac: &str) -> (r: Option<[u8; 6]>)
    ensures
        r is Some <==> parse_mac_spec(mac.spec_bytes()) is Some,
        r matches Some(bytes) ==> bytes@ == parse_mac_spec(mac.spec_bytes()).unwrap(),
{
    let bytes = mac.as_bytes();
    let parts = split_on_colons(bytes);
    let ghost fields = split_fields(bytes@);
    assert(parts@.len() == fields.len());
    if parts.len() != 6 {
        return None;
    }
    let mut values: Vec<u8> = Vec::new();
    let mut i: usize = 0;
    while i < 6
        invariant
            i <= 6,
            parts@.len() == 6,
            fields.len() == 6,
            fields == split_fields(mac.spec_bytes()),
            parts@.map_values(|f: Vec<u8>| f@) == fields,
            values@.len() == i,
            forall|j: int| 0 <= j < i ==> parse_hex_byte(fields[j]) == Some(#[trigger] values@[j]),
        decreases 6 - i,
    {
        assert(parts@[i as int]@ == fields[i as int]);
        match parse_hex_field(&parts[i]) {
            None => {
                assert(parse_hex_byte(fields[i as int]) is None);
                assert(!(forall|j: int| 0 <= j < 6 ==> (#[trigger] parse_hex_byte(fields[j])) is Some));
                return None;
            },
            Some(v) => {
                values.push(v);
            },
        }
        i = i + 1;
    }
    let out = [values[0], values[1], values[2], values[3], values[4], values[5]];
    assert(out@ =~= Seq::new(6, |j: int| parse_hex_byte(fields[j]).unwrap()));
    Some(out)
}

/// The MAC addresses that can be read from `raw_macs`, in order; entries that
/// are not MAC addresses are skipped.
pub fn collect_macs(raw_macs: &Vec<String>) -> (macs: Vec<[u8; 6]>)
    ensures
        mac_views(macs@) == parsed_macs(texts_bytes(raw_macs@)),
{
    let mut macs: Vec<[u8; 6]> = Vec::new();
    let ghost texts = texts_bytes(raw_macs@);
    let mut i: usize = 0;
    while i < raw_macs.len()
        invariant
            i <= raw_macs@.len(),
            texts == texts_bytes(raw_macs@),
            mac_views(macs@) == parsed_macs(texts.take(i as int)),
        decreases raw_macs@.len() - i,
    {
        let ghost prev = mac_views(macs@);
        assert(texts.take(i + 1).drop_last() =~= texts.take(i as int));
        assert(texts[i as int] == encode_utf8(raw_macs@[i as int]@));
        match parse_mac(raw_macs[i].as_str()) {
            Some(mac) => {
                macs.push(mac);
                assert(mac_views(macs@) =~= prev.push(mac@));
            },
            None => {},
        }
        i = i + 1;
    }
    assert(texts.take(i as int) =~= texts);
    macs
}

} // verus!
