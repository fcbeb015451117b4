//! The interchange encoding of a proof record: a JSON text with the
//! fields in declaration order and no added whitespace.

use vstd::prelude::*;

use crate::record::RecordView;
use crate::record::ZeroKnowledgeProof;
use crate::record::ZkpError;
use crate::record::key_values_view;
use crate::text::chars_string;
use crate::text::chars_vec;
use crate::text::push_chars;

verus! {

/// Whether a character is a control character without a named escape:
/// one that the encoding writes as a six-character `\u00··` escape.
pub open spec fn is_ctl(c: char) -> bool {
    c == '\u{0}' || c == '\u{1}' || c == '\u{2}' || c == '\u{3}' || c == '\u{4}' || c == '\u{5}' || c == '\u{6}' || c == '\u{7}' || c == '\u{b}' || c == '\u{e}' || c == '\u{f}' || c == '\u{10}' || c == '\u{11}' || c == '\u{12}' || c == '\u{13}' || c == '\u{14}' || c == '\u{15}' || c == '\u{16}' || c == '\u{17}' || c == '\u{18}' || c == '\u{19}' || c == '\u{1a}' || c == '\u{1b}' || c == '\u{1c}' || c == '\u{1d}' || c == '\u{1e}' || c == '\u{1f}'
}

/// The six-character escape of a control character without a named
/// escape.
pub open spec fn ctl_escape(c: char) -> Seq<char> {
    if c == '\u{0}' {
        seq!['\\', 'u', '0', '0', '0', '0']
    } else if c == '\u{1}' {
        seq!['\\', 'u', '0', '0', '0', '1']
    } else if c == '\u{2}' {
        seq!['\\', 'u', '0', '0', '0', '2']
    } else if c == '\u{3}' {
        seq!['\\', 'u', '0', '0', '0', '3']
    } else if c == '\u{4}' {
        seq!['\\', 'u', '0', '0', '0', '4']
    } else if c == '\u{5}' {
        seq!['\\', 'u', '0', '0', '0', '5']
    } else if c == '\u{6}' {
        seq!['\\', 'u', '0', '0', '0', '6']
    } else if c == '\u{7}' {
        seq!['\\', 'u', '0', '0', '0', '7']
    } else if c == '\u{b}' {
        seq!['\\', 'u', '0', '0', '0', 'b']
    } else if c == '\u{e}' {
        seq!['\\', 'u', '0', '0', '0', 'e']
    } else if c == '\u{f}' {
        seq!['\\', 'u', '0', '0', '0', 'f']
    } else if c == '\u{10}' {
        seq!['\\', 'u', '0', '0', '1', '0']
    } else if c == '\u{11}' {
        seq!['\\', 'u', '0', '0', '1', '1']
    } else if c == '\u{12}' {
        seq!['\\', 'u', '0', '0', '1', '2']
    } else if c == '\u{13}' {
        seq!['\\', 'u', '0', '0', '1', '3']
    } else if c == '\u{14}' {
        seq!['\\', 'u', '0', '0', '1', '4']
    } else if c == '\u{15}' {
        seq!['\\', 'u', '0', '0', '1', '5']
    } else if c == '\u{16}' {
        seq!['\\', 'u', '0', '0', '1', '6']
    } else if c == '\u{17}' {
        seq!['\\', 'u', '0', '0', '1', '7']
    } else if c == '\u{18}' {
        seq!['\\', 'u', '0', '0', '1', '8']
    } else if c == '\u{19}' {
        seq!['\\', 'u', '0', '0', '1', '9']
    } else if c == '\u{1a}' {
        seq!['\\', 'u', '0', '0', '1', 'a']
    } else if c == '\u{1b}' {
        seq!['\\', 'u', '0', '0', '1', 'b']
    } else if c == '\u{1c}' {
        seq!['\\', 'u', '0', '0', '1', 'c']
    } else if c == '\u{1d}' {
        seq!['\\', 'u', '0', '0', '1', 'd']
    } else if c == '\u{1e}' {
        seq!['\\', 'u', '0', '0', '1', 'e']
    } else if c == '\u{1f}' {
        seq!['\\', 'u', '0', '0', '1', 'f']
    } else {
        seq![c]
    }
}

/// The escape of one character inside a quoted string: quote, backslash
/// and the five named control characters take a two-character escape;
/// the remaining control characters a six-character `\u00··` escape;
/// every other character stands for itself.
pub open spec fn esc_char(c: char) -> Seq<char> {
    if c == '"' {
        seq!['\\', '"']
    } else if c == '\\' {
        seq!['\\', '\\']
    } else if c == '\u{8}' {
        seq!['\\', 'b']
    } else if c == '\t' {
        seq!['\\', 't']
    } else if c == '\n' {
        seq!['\\', 'n']
    } else if c == '\u{c}' {
        seq!['\\', 'f']
    } else if c == '\r' {
        seq!['\\', 'r']
    } else if is_ctl(c) {
        ctl_escape(c)
    } else {
        seq![c]
    }
}

pub open spec fn esc_seq(s: Seq<char>) -> Seq<char>
    decreases s.len(),
{
    if s.len() == 0 {
        Seq::<char>::empty()
    } else {
        esc_char(s[0]) + esc_seq(s.drop_first())
    }
}

/// A quoted, escaped string.
pub open spec fn json_string(s: Seq<char>) -> Seq<char> {
    seq!['"'] + esc_seq(s) + seq!['"']
}

pub open spec fn digit_char(d: nat) -> char {
    if d == 0 {
        '0'
    } else if d == 1 {
        '1'
    } else if d == 2 {
        '2'
    } else if d == 3 {
        '3'
    } else if d == 4 {
        '4'
    } else if d == 5 {
        '5'
    } else if d == 6 {
        '6'
    } else if d == 7 {
        '7'
    } else if d == 8 {
        '8'
    } else {
        '9'
    }
}

/// The decimal digits of `n`, most significant first, no leading zeros.
pub open spec fn dec_digits(n: nat) -> Seq<char>
    decreases n,
{
    if n < 10 {
        seq![digit_char(n)]
    } else {
        dec_digits(n / 10).push(digit_char(n % 10))
    }
}

/// The members of the key/value object, `"k":"v"` joined by commas.
pub open spec fn members_text(kv: Seq<(Seq<char>, Seq<char>)>) -> Seq<char>
    decreases kv.len(),
{
    if kv.len() == 0 {
        Seq::<char>::empty()
    } else {
        let head = json_string(kv[0].0) + seq![':'] + json_string(kv[0].1);
        if kv.len() == 1 {
            head
        } else {
            head + seq![','] + members_text(kv.drop_first())
        }
    }
}

pub open spec fn object_text(kv: Seq<(Seq<char>, Seq<char>)>) -> Seq<char> {
    seq!['{'] + members_text(kv) + seq!['}']
}

/// The elements of the byte array, decimal values joined by commas.
pub open spec fn elems_text(d: Seq<u8>) -> Seq<char>
    decreases d.len(),
{
    if d.len() == 0 {
        Seq::<char>::empty()
    } else {
        let head = dec_digits(d[0] as nat);
        if d.len() == 1 {
            head
        } else {
            head + seq![','] + elems_text(d.drop_first())
        }
    }
}

pub open spec fn array_text(d: Seq<u8>) -> Seq<char> {
    seq!['['] + elems_text(d) + seq![']']
}

/// The full interchange text of a record.
pub open spec fn json_record(v: RecordView) -> Seq<char> {
    "{\"key_values\":"@ + object_text(v.key_values) + ",\"block_number\":"@ + dec_digits(
        v.block_number as nat,
    ) + ",\"data\":"@ + array_text(v.data) + "}"@
}

fn digit_char_exec(d: u64) -> (c: char)
    requires
        d < 10,
    ensures
        c == digit_char(d as nat),
{
    if d == 0 {
        '0'
    } else if d == 1 {
        '1'
    } else if d == 2 {
        '2'
    } else if d == 3 {
        '3'
    } else if d == 4 {
        '4'
    } else if d == 5 {
        '5'
    } else if d == 6 {
        '6'
    } else if d == 7 {
        '7'
    } else if d == 8 {
        '8'
    } else {
        '9'
    }
}

fn push_u64_digits(out: &mut Vec<char>, n: u64)
    ensures
        final(out)@ == old(out)@ + dec_digits(n as nat),
    decreases n,
{
    if n < 10 {
        out.push(digit_char_exec(n));
        proof {
            assert(out@ =~= old(out)@ + dec_digits(n as nat));
        }
    } else {
        push_u64_digits(out, n / 10);
        out.push(digit_char_exec(n % 10));
        proof {
            assert(out@ =~= old(out)@ + dec_digits(n as nat));
        }
    }
}

fn is_ctl_exec(c: char) -> (r: bool)
    ensures
        r == is_ctl(c),
{
    c == '\u{0}' || c == '\u{1}' || c == '\u{2}' || c == '\u{3}' || c == '\u{4}' || c == '\u{5}' || c == '\u{6}' || c == '\u{7}' || c == '\u{b}' || c == '\u{e}' || c == '\u{f}' || c == '\u{10}' || c == '\u{11}' || c == '\u{12}' || c == '\u{13}' || c == '\u{14}' || c == '\u{15}' || c == '\u{16}' || c == '\u{17}' || c == '\u{18}' || c == '\u{19}' || c == '\u{1a}' || c == '\u{1b}' || c == '\u{1c}' || c == '\u{1d}' || c == '\u{1e}' || c == '\u{1f}'
}

fn ctl_pair_exec(c: char) -> (r: (char, char))
    requires
        is_ctl(c),
    ensures
        ctl_escape(c) == seq!['\\', 'u', '0', '0', r.0, r.1],
{
    if c == '\u{0}' {
        ('0', '0')
    } else if c == '\u{1}' {
        ('0', '1')
    } else if c == '\u{2}' {
        ('0', '2')
    } else if c == '\u{3}' {
        ('0', '3')
    } else if c == '\u{4}' {
        ('0', '4')
    } else if c == '\u{5}' {
        ('0', '5')
    } else if c == '\u{6}' {
        ('0', '6')
    } else if c == '\u{7}' {
        ('0', '7')
    } else if c == '\u{b}' {
        ('0', 'b')
    } else if c == '\u{e}' {
        ('0', 'e')
    } else if c == '\u{f}' {
        ('0', 'f')
    } else if c == '\u{10}' {
        ('1', '0')
    } else if c == '\u{11}' {
        ('1', '1')
    } else if c == '\u{12}' {
        ('1', '2')
    } else if c == '\u{13}' {
        ('1', '3')
    } else if c == '\u{14}' {
        ('1', '4')
    } else if c == '\u{15}' {
        ('1', '5')
    } else if c == '\u{16}' {
        ('1', '6')
    } else if c == '\u{17}' {
        ('1', '7')
    } else if c == '\u{18}' {
        ('1', '8')
    } else if c == '\u{19}' {
        ('1', '9')
    } else if c == '\u{1a}' {
        ('1', 'a')
    } else if c == '\u{1b}' {
        ('1', 'b')
    } else if c == '\u{1c}' {
        ('1', 'c')
    } else if c == '\u{1d}' {
        ('1', 'd')
    } else if c == '\u{1e}' {
        ('1', 'e')
    } else if c == '\u{1f}' {
        ('1', 'f')
    } else {
        ('0', '0')
    }
}

fn push_esc_char(out: &mut Vec<char>, c: char)
    ensures
        final(out)@ == old(out)@ + esc_char(c),
{
    if c == '"' {
        out.push('\\');
        out.push('"');
    } else if c == '\\' {
        out.push('\\');
        out.push('\\');
    } else if c == '\u{8}' {
        out.push('\\');
        out.push('b');
    } else if c == '\t' {
        out.push('\\');
        out.push('t');
    } else if c == '\n' {
        out.push('\\');
        out.push('n');
    } else if c == '\u{c}' {
        out.push('\\');
        out.push('f');
    } else if c == '\r' {
        out.push('\\');
        out.push('r');
    } else if is_ctl_exec(c) {
        let pair = ctl_pair_exec(c);
        out.push('\\');
        out.push('u');
        out.push('0');
        out.push('0');
        out.push(pair.0);
        out.push(pair.1);
    } else {
        out.push(c);
    }
    proof {
        assert(out@ =~= old(out)@ + esc_char(c));
    }
}

proof fn lemma_esc_seq_snoc(s: Seq<char>, x: char)
    ensures
        esc_seq(s.push(x)) == esc_seq(s) + esc_char(x),
    decreases s.len(),
{
    if s.len() == 0 {
        assert(s.push(x)[0] == x);
        assert(s.push(x).drop_first() =~= Seq::<char>::empty());
        assert(esc_seq(Seq::<char>::empty()) == Seq::<char>::empty());
        assert(esc_seq(s.push(x)) == esc_char(x) + Seq::<char>::empty());
        assert(esc_seq(s) == Seq::<char>::empty());
        assert(esc_char(x) + Seq::<char>::empty() =~= Seq::<char>::empty() + esc_char(x));
    } else {
        assert(s.push(x).drop_first() =~= s.drop_first().push(x));
        assert(s.push(x)[0] == s[0]);
        lemma_esc_seq_snoc(s.drop_first(), x);
        assert(esc_seq(s.push(x)) == esc_char(s[0]) + (esc_seq(s.drop_first()) + esc_char(x)));
        assert(esc_char(s[0]) + (esc_seq(s.drop_first()) + esc_char(x)) =~= (esc_char(s[0])
            + esc_seq(s.drop_first())) + esc_char(x));
    }
}

fn push_escaped(out: &mut Vec<char>, s: &str)
    ensures
        final(out)@ == old(out)@ + esc_seq(s@),
{
    let v = chars_vec(s);
    let n = v.len();
    let mut i: usize = 0;
    while i < n
        invariant
            n == v.len(),
            v@ == s@,
            i <= n,
            out@ == old(out)@ + esc_seq(s@.take(i as int)),
        decreases n - i,
    {
        push_esc_char(out, v[i]);
        proof {
            assert(s@.take(i + 1 as int) =~= s@.take(i as int).push(s@[i as int]));
            lemma_esc_seq_snoc(s@.take(i as int), s@[i as int]);
            assert((old(out)@ + esc_seq(s@.take(i as int))) + esc_char(s@[i as int]) =~= old(
                out,
            )@ + esc_seq(s@.take(i + 1 as int)));
        }
        i = i + 1;
    }
    proof {
        assert(s@.take(n as int) =~= s@);
    }
}

fn push_json_string(out: &mut Vec<char>, s: &str)
    ensures
        final(out)@ == old(out)@ + json_string(s@),
{
    out.push('"');
    push_escaped(out, s);
    out.push('"');
    proof {
        assert(out@ =~= old(out)@ + json_string(s@));
    }
}

fn push_members(out: &mut Vec<char>, kv: &Vec<(String, String)>, i: usize)
    requires
        i < kv.len(),
    ensures
        final(out)@ == old(out)@ + members_text(key_values_view(kv@).skip(i as int)),
    decreases kv.len() - i,
{
    let ghost kvv = key_values_view(kv@);
    proof {
        assert(kvv[i as int] == (kv@[i as int].0@, kv@[i as int].1@));
        assert(kvv.skip(i as int)[0] == kvv[i as int]);
    }
    push_json_string(out, kv[i].0.as_str());
    out.push(':');
    push_json_string(out, kv[i].1.as_str());
    if i + 1 < kv.len() {
        out.push(',');
        push_members(out, kv, i + 1);
        proof {
            assert(kvv.skip(i as int).drop_first() =~= kvv.skip(i + 1 as int));
            assert(out@ =~= old(out)@ + members_text(kvv.skip(i as int)));
        }
    } else {
        proof {
            assert(kvv.skip(i as int).len() == 1);
            assert(out@ =~= old(out)@ + members_text(kvv.skip(i as int)));
        }
    }
}

fn push_object(out: &mut Vec<char>, kv: &Vec<(String, String)>)
    ensures
        final(out)@ == old(out)@ + object_text(key_values_view(kv@)),
{
    out.push('{');
    if kv.len() > 0 {
        push_members(out, kv, 0);
        proof {
            assert(key_values_view(kv@).skip(0) =~= key_values_view(kv@));
        }
    }
    out.push('}');
    proof {
        assert(out@ =~= old(out)@ + object_text(key_values_view(kv@)));
    }
}

fn push_elems(out: &mut Vec<char>, d: &Vec<u8>, i: usize)
    requires
        i < d.len(),
    ensures
        final(out)@ == old(out)@ + elems_text(d@.skip(i as int)),
    decreases d.len() - i,
{
    push_u64_digits(out, d[i] as u64);
    proof {
        assert(d@.skip(i as int)[0] == d@[i as int]);
    }
    if i + 1 < d.len() {
        out.push(',');
        push_elems(out, d, i + 1);
        proof {
            assert(d@.skip(i as int).drop_first() =~= d@.skip(i + 1 as int));
            assert(out@ =~= old(out)@ + elems_text(d@.skip(i as int)));
        }
    } else {
        proof {
            assert(d@.skip(i as int).len() == 1);
            assert(out@ =~= old(out)@ + elems_text(d@.skip(i as int)));
        }
    }
}

fn push_array(out: &mut Vec<char>, d: &Vec<u8>)
    ensures
        final(out)@ == old(out)@ + array_text(d@),
{
    out.push('[');
    if d.len() > 0 {
        push_elems(out, d, 0);
        proof {
            assert(d@.skip(0) =~= d@);
        }
    }
    out.push(']');
    proof {
        assert(out@ =~= old(out)@ + array_text(d@));
    }
}

/// The interchange text of a record, as a character vector.
pub fn encode_record_chars(zkp: &ZeroKnowledgeProof) -> (r: Vec<char>)
    ensures
        r@ == json_record(zkp@),
{
    let mut out: Vec<char> = Vec::new();
    push_chars(&mut out, "{\"key_values\":");
    push_object(&mut out, &zkp.key_values);
    push_chars(&mut out, ",\"block_number\":");
    push_u64_digits(&mut out, zkp.block_number);
    push_chars(&mut out, ",\"data\":");
    push_array(&mut out, &zkp.data);
    push_chars(&mut out, "}");
    proof {
        assert(out@ =~= json_record(zkp@));
    }
    out
}

/// Serializes a proof record to its interchange text.
///
/// Serialization is modeled as fallible, but it succeeds on every record:
/// the result is always `Ok`, and the text is exactly `json_record` of the
/// record's value.
pub fn serialize_zkp_message(zkp: &ZeroKnowledgeProof) -> (r: Result<String, ZkpError>)
    ensures
        r matches Ok(s) && s@ == json_record(zkp@),
{
    let out = encode_record_chars(zkp);
    Ok(chars_string(out))
}

} // verus!
