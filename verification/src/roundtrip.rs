//! The round-trip law: decoding an encoded record yields the record.

use vstd::prelude::*;

use crate::decode::deserialize_zkp_message;
use crate::decode::digit_val;
use crate::decode::is_digit;
use crate::decode::parse_array;
use crate::decode::parse_digits;
use crate::decode::parse_elems;
use crate::decode::parse_members;
use crate::decode::parse_num;
use crate::decode::parse_object;
use crate::decode::parse_record_text;
use crate::decode::parse_string_body;
use crate::decode::starts_with;
use crate::decode::unescape_char;
use crate::decode::unescape_u;
use crate::encode::array_text;
use crate::encode::dec_digits;
use crate::encode::ctl_escape;
use crate::encode::digit_char;
use crate::encode::elems_text;
use crate::encode::esc_char;
use crate::encode::esc_seq;
use crate::encode::is_ctl;
use crate::encode::json_record;
use crate::encode::members_text;
use crate::encode::object_text;
use crate::encode::serialize_zkp_message;
use crate::record::RecordView;
use crate::record::ZeroKnowledgeProof;

verus! {

pub open spec fn pow10(k: nat) -> nat
    decreases k,
{
    if k == 0 {
        1
    } else {
        10 * pow10((k - 1) as nat)
    }
}

proof fn lemma_digit_char_val(d: nat)
    requires
        d < 10,
    ensures
        is_digit(digit_char(d)),
        digit_val(digit_char(d)) == d,
{
}

proof fn lemma_dec_digits_first(n: nat)
    ensures
        dec_digits(n).len() >= 1,
        is_digit(dec_digits(n)[0]),
    decreases n,
{
    if n < 10 {
        lemma_digit_char_val(n);
    } else {
        lemma_dec_digits_first(n / 10);
        assert(dec_digits(n)[0] == dec_digits(n / 10)[0]);
    }
}

proof fn lemma_parse_digits_of_dec(n: nat, rest: Seq<char>, acc: nat)
    ensures
        parse_digits(dec_digits(n) + rest, acc) == parse_digits(
            rest,
            acc * pow10(dec_digits(n).len()) + n,
        ),
    decreases n,
{
    if n < 10 {
        lemma_digit_char_val(n);
        let s = dec_digits(n) + rest;
        assert(s[0] == digit_char(n));
        assert(s.drop_first() =~= rest);
        assert(pow10(0) == 1);
        assert(pow10(1) == 10);
        assert(parse_digits(s, acc) == parse_digits(rest, acc * 10 + n));
    } else {
        let m = n / 10;
        let d = n % 10;
        lemma_digit_char_val(d);
        let k = dec_digits(m).len();
        assert(dec_digits(n) == dec_digits(m).push(digit_char(d)));
        assert(dec_digits(n) + rest =~= dec_digits(m) + (seq![digit_char(d)] + rest));
        lemma_parse_digits_of_dec(m, seq![digit_char(d)] + rest, acc);
        let acc2 = acc * pow10(k) + m;
        let s2 = seq![digit_char(d)] + rest;
        assert(s2[0] == digit_char(d));
        assert(s2.drop_first() =~= rest);
        assert(parse_digits(s2, acc2) == parse_digits(rest, acc2 * 10 + d));
        assert(dec_digits(n).len() == k + 1);
        assert(pow10((k + 1) as nat) == 10 * pow10(k));
        vstd::arithmetic::div_mod::lemma_fundamental_div_mod(n as int, 10);
        assert(acc2 * 10 + d == acc * pow10((k + 1) as nat) + n) by (nonlinear_arith)
            requires
                acc2 == acc * pow10(k) + m,
                n == 10 * m + d,
                pow10((k + 1) as nat) == 10 * pow10(k),
        ;
    }
}

proof fn lemma_parse_num_of_dec(n: nat, rest: Seq<char>)
    requires
        rest.len() == 0 || !is_digit(rest[0]),
    ensures
        parse_num(dec_digits(n) + rest) == Some((n, rest)),
{
    lemma_dec_digits_first(n);
    let s = dec_digits(n) + rest;
    assert(s[0] == dec_digits(n)[0]);
    lemma_parse_digits_of_dec(n, rest, 0);
    assert(0 * pow10(dec_digits(n).len()) + n == n);
    assert(parse_digits(rest, n) == (n, rest));
}

proof fn lemma_parse_string_of_esc(c: Seq<char>, rest: Seq<char>)
    ensures
        parse_string_body(esc_seq(c) + seq!['"'] + rest) == Some((c, rest)),
    decreases c.len(),
{
    let s = esc_seq(c) + seq!['"'] + rest;
    if c.len() == 0 {
        assert(s =~= seq!['"'] + rest);
        assert(s[0] == '"');
        assert(s.drop_first() =~= rest);
    } else {
        let cd = c.drop_first();
        let e = esc_char(c[0]);
        let tail = esc_seq(cd) + seq!['"'] + rest;
        assert(esc_seq(c) == e + esc_seq(cd));
        assert(s =~= e + tail);
        lemma_parse_string_of_esc(cd, rest);
        if c[0] == '"' || c[0] == '\\' || c[0] == '\u{8}' || c[0] == '\t' || c[0] == '\n' || c[0]
            == '\u{c}' || c[0] == '\r' {
            assert(e.len() == 2);
            assert(e[0] == '\\');
            assert(unescape_char(e[1]) == Some(c[0]));
            assert(s[0] == '\\');
            assert(s.len() >= 2);
            assert(s[1] == e[1]);
            assert(s.skip(2) =~= tail);
            assert(parse_string_body(s) == Some((seq![c[0]] + cd, rest)));
            assert(seq![c[0]] + cd =~= c);
        } else if is_ctl(c[0]) {
            assert(e == ctl_escape(c[0]));
            assert(e.len() == 6);
            assert(e[0] == '\\');
            assert(e[1] == 'u');
            assert(e[2] == '0');
            assert(e[3] == '0');
            assert(unescape_u(e[4], e[5]) == Some(c[0]));
            assert(s[0] == '\\');
            assert(s.len() >= 6);
            assert(s[1] == e[1]);
            assert(s[2] == e[2]);
            assert(s[3] == e[3]);
            assert(s[4] == e[4]);
            assert(s[5] == e[5]);
            assert(s.skip(6) =~= tail);
            assert(parse_string_body(s) == Some((seq![c[0]] + cd, rest)));
            assert(seq![c[0]] + cd =~= c);
        } else {
            assert(e =~= seq![c[0]]);
            assert(s[0] == c[0]);
            assert(s.drop_first() =~= tail);
            assert(parse_string_body(s) == Some((seq![c[0]] + cd, rest)));
            assert(seq![c[0]] + cd =~= c);
        }
    }
}

proof fn lemma_parse_members_of_enc(kv: Seq<(Seq<char>, Seq<char>)>, rest: Seq<char>)
    requires
        kv.len() >= 1,
    ensures
        parse_members(members_text(kv) + seq!['}'] + rest) == Some((kv, rest)),
    decreases kv.len(),
{
    let k0 = kv[0].0;
    let v0 = kv[0].1;
    let s = members_text(kv) + seq!['}'] + rest;
    let t = if kv.len() == 1 {
        seq!['}'] + rest
    } else {
        seq![','] + (members_text(kv.drop_first()) + seq!['}'] + rest)
    };
    let r1 = seq![':'] + seq!['"'] + esc_seq(v0) + seq!['"'] + t;
    assert(s =~= seq!['"'] + (esc_seq(k0) + seq!['"'] + r1));
    assert(s[0] == '"');
    assert(s.drop_first() =~= esc_seq(k0) + seq!['"'] + r1);
    lemma_parse_string_of_esc(k0, r1);
    assert(parse_string_body(s.drop_first()) == Some((k0, r1)));
    assert(r1.len() >= 2);
    assert(r1[0] == ':');
    assert(r1[1] == '"');
    assert(r1.skip(2) =~= esc_seq(v0) + seq!['"'] + t);
    lemma_parse_string_of_esc(v0, t);
    assert(parse_string_body(r1.skip(2)) == Some((v0, t)));
    if kv.len() == 1 {
        assert(t[0] == '}');
        assert(t.skip(1) =~= rest);
        assert(parse_members(s) == Some((seq![(k0, v0)], rest)));
        assert(seq![(k0, v0)] =~= kv);
    } else {
        assert(t[0] == ',');
        assert(t.skip(1) =~= members_text(kv.drop_first()) + seq!['}'] + rest);
        lemma_parse_members_of_enc(kv.drop_first(), rest);
        assert(parse_members(s) == Some((seq![(k0, v0)] + kv.drop_first(), rest)));
        assert(seq![(k0, v0)] + kv.drop_first() =~= kv);
    }
}

proof fn lemma_parse_object_of_enc(kv: Seq<(Seq<char>, Seq<char>)>, rest: Seq<char>)
    ensures
        parse_object(object_text(kv) + rest) == Some((kv, rest)),
{
    let s = object_text(kv) + rest;
    if kv.len() == 0 {
        assert(s =~= seq!['{', '}'] + rest);
        assert(s[0] == '{');
        assert(s[1] == '}');
        assert(s.skip(2) =~= rest);
        assert(kv =~= Seq::<(Seq<char>, Seq<char>)>::empty());
    } else {
        assert(members_text(kv)[0] == '"');
        assert(s[0] == '{');
        assert(s[1] == members_text(kv)[0]);
        assert(s.drop_first() =~= members_text(kv) + seq!['}'] + rest);
        lemma_parse_members_of_enc(kv, rest);
    }
}

proof fn lemma_parse_elems_of_enc(d: Seq<u8>, rest: Seq<char>)
    requires
        d.len() >= 1,
    ensures
        parse_elems(elems_text(d) + seq![']'] + rest) == Some((d, rest)),
    decreases d.len(),
{
    let s = elems_text(d) + seq![']'] + rest;
    let t = if d.len() == 1 {
        seq![']'] + rest
    } else {
        seq![','] + (elems_text(d.drop_first()) + seq![']'] + rest)
    };
    assert(s =~= dec_digits(d[0] as nat) + t);
    lemma_parse_num_of_dec(d[0] as nat, t);
    assert(parse_num(s) == Some((d[0] as nat, t)));
    assert(d[0] as nat <= 255);
    assert((d[0] as nat) as u8 == d[0]);
    if d.len() == 1 {
        assert(t[0] == ']');
        assert(t.skip(1) =~= rest);
        assert(parse_elems(s) == Some((seq![d[0]], rest)));
        assert(seq![d[0]] =~= d);
    } else {
        assert(t[0] == ',');
        assert(t.skip(1) =~= elems_text(d.drop_first()) + seq![']'] + rest);
        lemma_parse_elems_of_enc(d.drop_first(), rest);
        assert(parse_elems(s) == Some((seq![d[0]] + d.drop_first(), rest)));
        assert(seq![d[0]] + d.drop_first() =~= d);
    }
}

proof fn lemma_parse_array_of_enc(d: Seq<u8>, rest: Seq<char>)
    ensures
        parse_array(array_text(d) + rest) == Some((d, rest)),
{
    let s = array_text(d) + rest;
    if d.len() == 0 {
        assert(s =~= seq!['[', ']'] + rest);
        assert(s[0] == '[');
        assert(s[1] == ']');
        assert(s.skip(2) =~= rest);
        assert(d =~= Seq::<u8>::empty());
    } else {
        lemma_dec_digits_first(d[0] as nat);
        assert(elems_text(d)[0] == dec_digits(d[0] as nat)[0]);
        assert(is_digit(elems_text(d)[0]));
        assert(s[0] == '[');
        assert(s[1] == elems_text(d)[0]);
        assert(s[1] != ']');
        assert(s.drop_first() =~= elems_text(d) + seq![']'] + rest);
        lemma_parse_elems_of_enc(d, rest);
    }
}

/// Round-trip law: the interchange text of any record value decodes back
/// to exactly that value — for any key/value mapping, any block number
/// and any byte sequence.
pub proof fn lemma_round_trip(v: RecordView)
    ensures
        parse_record_text(json_record(v)) == Some(v),
{
    reveal_strlit("{\"key_values\":");
    reveal_strlit(",\"block_number\":");
    reveal_strlit(",\"data\":");
    reveal_strlit("}");
    let l1 = "{\"key_values\":"@;
    let l2 = ",\"block_number\":"@;
    let l3 = ",\"data\":"@;
    let s = json_record(v);
    let rest1 = l2 + dec_digits(v.block_number as nat) + l3 + array_text(v.data) + "}"@;
    assert(s =~= l1 + (object_text(v.key_values) + rest1));
    assert(s.take(l1.len() as int) =~= l1);
    assert(starts_with(s, l1));
    assert(s.skip(l1.len() as int) =~= object_text(v.key_values) + rest1);
    lemma_parse_object_of_enc(v.key_values, rest1);
    assert(parse_object(s.skip(l1.len() as int)) == Some((v.key_values, rest1)));
    let rest2 = dec_digits(v.block_number as nat) + (l3 + array_text(v.data) + "}"@);
    assert(rest1.take(l2.len() as int) =~= l2);
    assert(starts_with(rest1, l2));
    assert(rest1.skip(l2.len() as int) =~= rest2);
    let rest3 = l3 + array_text(v.data) + "}"@;
    assert(rest3[0] == ',');
    assert(!is_digit(rest3[0]));
    lemma_parse_num_of_dec(v.block_number as nat, rest3);
    assert(parse_num(rest2) == Some((v.block_number as nat, rest3)));
    assert(v.block_number as nat <= u64::MAX);
    assert((v.block_number as nat) as u64 == v.block_number);
    assert(rest3.take(l3.len() as int) =~= l3);
    assert(starts_with(rest3, l3));
    let rest4 = array_text(v.data) + "}"@;
    assert(rest3.skip(l3.len() as int) =~= rest4);
    lemma_parse_array_of_enc(v.data, "}"@);
    assert(parse_array(rest4) == Some((v.data, "}"@)));
    assert("}"@.len() == 1);
    assert("}"@[0] == '}');
    assert(parse_record_text(s) == Some(
        RecordView {
            key_values: v.key_values,
            block_number: v.block_number,
            data: v.data,
        },
    ));
    assert(RecordView { key_values: v.key_values, block_number: v.block_number, data: v.data }
        =~= v);
}

/// Serializing a record and deserializing the result yields a record
/// with the same value.
pub fn serialize_then_deserialize(zkp: &ZeroKnowledgeProof) -> (r: ZeroKnowledgeProof)
    ensures
        r@ == zkp@,
{
    let text = serialize_zkp_message(zkp).unwrap();
    proof {
        lemma_round_trip(zkp@);
    }
    let rec = deserialize_zkp_message(text.as_str()).unwrap();
    rec
}

} // verus!
