//! The interchange decoding of a proof record.
//!
//! The spec-level parser below fixes what every input decodes to; the
//! executable decoder returns exactly that value. The parser accepts the
//! texts `json_record` produces (and a few harmless variations, such as
//! numbers with leading zeros).

use vstd::prelude::*;

use crate::record::RecordView;
use crate::record::ZeroKnowledgeProof;
use crate::record::key_values_view;
use crate::text::chars_string;
use crate::text::chars_vec;

verus! {

pub open spec fn is_digit(c: char) -> bool {
    c == '0' || c == '1' || c == '2' || c == '3' || c == '4' || c == '5' || c == '6' || c == '7'
        || c == '8' || c == '9'
}

pub open spec fn digit_val(c: char) -> nat {
    if c == '0' {
        0
    } else if c == '1' {
        1
    } else if c == '2' {
        2
    } else if c == '3' {
        3
    } else if c == '4' {
        4
    } else if c == '5' {
        5
    } else if c == '6' {
        6
    } else if c == '7' {
        7
    } else if c == '8' {
        8
    } else {
        9
    }
}

/// The character an escape letter stands for, if it is one the encoding
/// uses.
pub open spec fn unescape_char(c: char) -> Option<char> {
    if c == '"' {
        Some('"')
    } else if c == '\\' {
        Some('\\')
    } else if c == 'b' {
        Some('\u{8}')
    } else if c == 't' {
        Some('\t')
    } else if c == 'n' {
        Some('\n')
    } else if c == 'f' {
        Some('\u{c}')
    } else if c == 'r' {
        Some('\r')
    } else {
        None
    }
}

/// The character a `\u00··` escape stands for: the escapes the encoding
/// writes are exactly those of the control characters without a named
/// escape.
pub open spec fn unescape_u(c1: char, c2: char) -> Option<char> {
    if c1 == '0' {
        if c2 == '0' {
            Some('\u{0}')
        } else if c2 == '1' {
            Some('\u{1}')
        } else if c2 == '2' {
            Some('\u{2}')
        } else if c2 == '3' {
            Some('\u{3}')
        } else if c2 == '4' {
            Some('\u{4}')
        } else if c2 == '5' {
            Some('\u{5}')
        } else if c2 == '6' {
            Some('\u{6}')
        } else if c2 == '7' {
            Some('\u{7}')
        } else if c2 == 'b' {
            Some('\u{b}')
        } else if c2 == 'e' {
            Some('\u{e}')
        } else if c2 == 'f' {
            Some('\u{f}')
        } else {
            None
        }
    } else if c1 == '1' {
        if c2 == '0' {
            Some('\u{10}')
        } else if c2 == '1' {
            Some('\u{11}')
        } else if c2 == '2' {
            Some('\u{12}')
        } else if c2 == '3' {
            Some('\u{13}')
        } else if c2 == '4' {
            Some('\u{14}')
        } else if c2 == '5' {
            Some('\u{15}')
        } else if c2 == '6' {
            Some('\u{16}')
        } else if c2 == '7' {
            Some('\u{17}')
        } else if c2 == '8' {
            Some('\u{18}')
        } else if c2 == '9' {
            Some('\u{19}')
        } else if c2 == 'a' {
            Some('\u{1a}')
        } else if c2 == 'b' {
            Some('\u{1b}')
        } else if c2 == 'c' {
            Some('\u{1c}')
        } else if c2 == 'd' {
            Some('\u{1d}')
        } else if c2 == 'e' {
            Some('\u{1e}')
        } else if c2 == 'f' {
            Some('\u{1f}')
        } else {
            None
        }
    } else {
        None
    }
}

/// Parses the body of a quoted string, after the opening quote: the
/// content up to the closing quote, and the remainder after it.
pub open spec fn parse_string_body(s: Seq<char>) -> Option<(Seq<char>, Seq<char>)>
    decreases s.len(),
{
    if s.len() == 0 {
        None
    } else if s[0] == '"' {
        Some((Seq::<char>::empty(), s.drop_first()))
    } else if s[0] == '\\' {
        if s.len() < 2 {
            None
        } else if s[1] == 'u' {
            if s.len() < 6 || s[2] != '0' || s[3] != '0' {
                None
            } else {
                match unescape_u(s[4], s[5]) {
                    Some(u) => match parse_string_body(s.skip(6)) {
                        Some(p) => Some((seq![u] + p.0, p.1)),
                        None => None,
                    },
                    None => None,
                }
            }
        } else {
            match unescape_char(s[1]) {
                Some(u) => match parse_string_body(s.skip(2)) {
                    Some(p) => Some((seq![u] + p.0, p.1)),
                    None => None,
                },
                None => None,
            }
        }
    } else {
        match parse_string_body(s.drop_first()) {
            Some(p) => Some((seq![s[0]] + p.0, p.1)),
            None => None,
        }
    }
}

pub proof fn lemma_string_body_shrinks(s: Seq<char>)
    ensures
        parse_string_body(s) matches Some(p) ==> p.1.len() < s.len(),
    decreases s.len(),
{
    if s.len() == 0 {
    } else if s[0] == '"' {
    } else if s[0] == '\\' {
        if s.len() >= 2 {
            lemma_string_body_shrinks(s.skip(2));
        }
        if s.len() >= 6 {
            lemma_string_body_shrinks(s.skip(6));
        }
    } else {
        lemma_string_body_shrinks(s.drop_first());
    }
}

/// Folds a run of decimal digits into a value, most significant first.
pub open spec fn parse_digits(s: Seq<char>, acc: nat) -> (nat, Seq<char>)
    decreases s.len(),
{
    if s.len() > 0 && is_digit(s[0]) {
        parse_digits(s.drop_first(), acc * 10 + digit_val(s[0]))
    } else {
        (acc, s)
    }
}

/// Parses a decimal number: at least one digit, maximal run.
pub open spec fn parse_num(s: Seq<char>) -> Option<(nat, Seq<char>)> {
    if s.len() > 0 && is_digit(s[0]) {
        Some(parse_digits(s, 0))
    } else {
        None
    }
}

pub proof fn lemma_digits_shrink(s: Seq<char>, acc: nat)
    ensures
        parse_digits(s, acc).1.len() <= s.len(),
        s.len() > 0 && is_digit(s[0]) ==> parse_digits(s, acc).1.len() < s.len(),
    decreases s.len(),
{
    if s.len() > 0 && is_digit(s[0]) {
        lemma_digits_shrink(s.drop_first(), acc * 10 + digit_val(s[0]));
    }
}

/// Parses the members of a non-empty key/value object, starting at the
/// first key's opening quote, through the closing brace.
pub open spec fn parse_members(s: Seq<char>) -> Option<
    (Seq<(Seq<char>, Seq<char>)>, Seq<char>),
>
    decreases s.len(),
{
    if s.len() >= 1 && s[0] == '"' {
        match parse_string_body(s.drop_first()) {
            Some(kp) => {
                if kp.1.len() >= 2 && kp.1[0] == ':' && kp.1[1] == '"' {
                    match parse_string_body(kp.1.skip(2)) {
                        Some(vp) => {
                            if vp.1.len() >= 1 && vp.1[0] == ',' {
                                proof {
                                    lemma_string_body_shrinks(s.drop_first());
                                    lemma_string_body_shrinks(kp.1.skip(2));
                                }
                                match parse_members(vp.1.skip(1)) {
                                    Some(mp) => Some((seq![(kp.0, vp.0)] + mp.0, mp.1)),
                                    None => None,
                                }
                            } else if vp.1.len() >= 1 && vp.1[0] == '}' {
                                Some((seq![(kp.0, vp.0)], vp.1.skip(1)))
                            } else {
                                None
                            }
                        },
                        None => None,
                    }
                } else {
                    None
                }
            },
            None => None,
        }
    } else {
        None
    }
}

/// Parses a key/value object, braces included.
pub open spec fn parse_object(s: Seq<char>) -> Option<(Seq<(Seq<char>, Seq<char>)>, Seq<char>)> {
    if s.len() >= 2 && s[0] == '{' && s[1] == '}' {
        Some((Seq::<(Seq<char>, Seq<char>)>::empty(), s.skip(2)))
    } else if s.len() >= 1 && s[0] == '{' {
        parse_members(s.drop_first())
    } else {
        None
    }
}

/// Parses the elements of a non-empty byte array, starting at the first
/// digit, through the closing bracket.
pub open spec fn parse_elems(s: Seq<char>) -> Option<(Seq<u8>, Seq<char>)>
    decreases s.len(),
{
    match parse_num(s) {
        Some(np) => {
            if np.0 <= 255 {
                if np.1.len() >= 1 && np.1[0] == ',' {
                    proof {
                        lemma_digits_shrink(s, 0);
                    }
                    match parse_elems(np.1.skip(1)) {
                        Some(ep) => Some((seq![np.0 as u8] + ep.0, ep.1)),
                        None => None,
                    }
                } else if np.1.len() >= 1 && np.1[0] == ']' {
                    Some((seq![np.0 as u8], np.1.skip(1)))
                } else {
                    None
                }
            } else {
                None
            }
        },
        None => None,
    }
}

/// Parses a byte array, brackets included.
pub open spec fn parse_array(s: Seq<char>) -> Option<(Seq<u8>, Seq<char>)> {
    if s.len() >= 2 && s[0] == '[' && s[1] == ']' {
        Some((Seq::<u8>::empty(), s.skip(2)))
    } else if s.len() >= 1 && s[0] == '[' {
        parse_elems(s.drop_first())
    } else {
        None
    }
}

pub open spec fn starts_with(s: Seq<char>, p: Seq<char>) -> bool {
    s.len() >= p.len() && s.take(p.len() as int) == p
}

/// What a whole interchange text decodes to: the record, if the text is
/// a record encoding consumed to its last character; nothing otherwise.
pub open spec fn parse_record_text(s: Seq<char>) -> Option<RecordView> {
    let l1 = "{\"key_values\":"@;
    let l2 = ",\"block_number\":"@;
    let l3 = ",\"data\":"@;
    if starts_with(s, l1) {
        match parse_object(s.skip(l1.len() as int)) {
            Some(op) => {
                if starts_with(op.1, l2) {
                    match parse_num(op.1.skip(l2.len() as int)) {
                        Some(np) => {
                            if np.0 <= u64::MAX {
                                if starts_with(np.1, l3) {
                                    match parse_array(np.1.skip(l3.len() as int)) {
                                        Some(ap) => {
                                            if ap.1.len() == 1 && ap.1[0] == '}' {
                                                Some(
                                                    RecordView {
                                                        key_values: op.0,
                                                        block_number: np.0 as u64,
                                                        data: ap.0,
                                                    },
                                                )
                                            } else {
                                                None
                                            }
                                        },
                                        None => None,
                                    }
                                } else {
                                    None
                                }
                            } else {
                                None
                            }
                        },
                        None => None,
                    }
                } else {
                    None
                }
            },
            None => None,
        }
    } else {
        None
    }
}

fn unescape_char_exec(c: char) -> (r: Option<char>)
    ensures
        r == unescape_char(c),
{
    if c == '"' {
        Some('"')
    } else if c == '\\' {
        Some('\\')
    } else if c == 'b' {
        Some('\u{8}')
    } else if c == 't' {
        Some('\t')
    } else if c == 'n' {
        Some('\n')
    } else if c == 'f' {
        Some('\u{c}')
    } else if c == 'r' {
        Some('\r')
    } else {
        None
    }
}

fn unescape_u_exec(c1: char, c2: char) -> (r: Option<char>)
    ensures
        r == unescape_u(c1, c2),
{
    if c1 == '0' {
        if c2 == '0' {
            Some('\u{0}')
        } else if c2 == '1' {
            Some('\u{1}')
        } else if c2 == '2' {
            Some('\u{2}')
        } else if c2 == '3' {
            Some('\u{3}')
        } else if c2 == '4' {
            Some('\u{4}')
        } else if c2 == '5' {
            Some('\u{5}')
        } else if c2 == '6' {
            Some('\u{6}')
        } else if c2 == '7' {
            Some('\u{7}')
        } else if c2 == 'b' {
            Some('\u{b}')
        } else if c2 == 'e' {
            Some('\u{e}')
        } else if c2 == 'f' {
            Some('\u{f}')
        } else {
            None
        }
    } else if c1 == '1' {
        if c2 == '0' {
            Some('\u{10}')
        } else if c2 == '1' {
            Some('\u{11}')
        } else if c2 == '2' {
            Some('\u{12}')
        } else if c2 == '3' {
            Some('\u{13}')
        } else if c2 == '4' {
            Some('\u{14}')
        } else if c2 == '5' {
            Some('\u{15}')
        } else if c2 == '6' {
            Some('\u{16}')
        } else if c2 == '7' {
            Some('\u{17}')
        } else if c2 == '8' {
            Some('\u{18}')
        } else if c2 == '9' {
            Some('\u{19}')
        } else if c2 == 'a' {
            Some('\u{1a}')
        } else if c2 == 'b' {
            Some('\u{1b}')
        } else if c2 == 'c' {
            Some('\u{1c}')
        } else if c2 == 'd' {
            Some('\u{1d}')
        } else if c2 == 'e' {
            Some('\u{1e}')
        } else if c2 == 'f' {
            Some('\u{1f}')
        } else {
            None
        }
    } else {
        None
    }
}

fn digit_val_exec(c: char) -> (r: u64)
    requires
        is_digit(c),
    ensures
        r == digit_val(c),
        r < 10,
{
    if c == '0' {
        0
    } else if c == '1' {
        1
    } else if c == '2' {
        2
    } else if c == '3' {
        3
    } else if c == '4' {
        4
    } else if c == '5' {
        5
    } else if c == '6' {
        6
    } else if c == '7' {
        7
    } else if c == '8' {
        8
    } else {
        9
    }
}

fn is_digit_exec(c: char) -> (r: bool)
    ensures
        r == is_digit(c),
{
    c == '0' || c == '1' || c == '2' || c == '3' || c == '4' || c == '5' || c == '6' || c == '7'
        || c == '8' || c == '9'
}

fn p_string_body(v: &Vec<char>, i: usize) -> (r: Option<(Vec<char>, usize)>)
    requires
        i <= v.len(),
    ensures
        match r {
            Some(p) => p.1 <= v.len() && parse_string_body(v@.skip(i as int)) == Some(
                (p.0@, v@.skip(p.1 as int)),
            ),
            None => parse_string_body(v@.skip(i as int)) is None,
        },
    decreases v.len() - i,
{
    let ghost s = v@.skip(i as int);
    if i == v.len() {
        None
    } else {
        proof {
            assert(s[0] == v@[i as int]);
        }
        let c = v[i];
        if c == '"' {
            proof {
                assert(s.drop_first() =~= v@.skip(i + 1 as int));
            }
            Some((Vec::new(), i + 1))
        } else if c == '\\' {
            if i + 1 == v.len() {
                None
            } else if v[i + 1] == 'u' {
                proof {
                    assert(s[1] == v@[i + 1 as int]);
                }
                if v.len() - i < 6 {
                    None
                } else {
                    proof {
                        assert(s[2] == v@[i + 2 as int]);
                        assert(s[3] == v@[i + 3 as int]);
                        assert(s[4] == v@[i + 4 as int]);
                        assert(s[5] == v@[i + 5 as int]);
                    }
                    if v[i + 2] != '0' || v[i + 3] != '0' {
                        None
                    } else {
                        match unescape_u_exec(v[i + 4], v[i + 5]) {
                            Some(u) => {
                                proof {
                                    assert(s.skip(6) =~= v@.skip(i + 6 as int));
                                }
                                match p_string_body(v, i + 6) {
                                    Some((mut content, j)) => {
                                        content.insert(0, u);
                                        proof {
                                            assert(content@ =~= seq![u]
                                                + content@.drop_first());
                                        }
                                        Some((content, j))
                                    },
                                    None => None,
                                }
                            },
                            None => None,
                        }
                    }
                }
            } else {
                proof {
                    assert(s[1] == v@[i + 1 as int]);
                }
                match unescape_char_exec(v[i + 1]) {
                    Some(u) => {
                        proof {
                            assert(s.skip(2) =~= v@.skip(i + 2 as int));
                        }
                        match p_string_body(v, i + 2) {
                            Some((mut content, j)) => {
                                content.insert(0, u);
                                proof {
                                    assert(content@ =~= seq![u] + content@.drop_first());
                                }
                                Some((content, j))
                            },
                            None => None,
                        }
                    },
                    None => None,
                }
            }
        } else {
            proof {
                assert(s.drop_first() =~= v@.skip(i + 1 as int));
            }
            match p_string_body(v, i + 1) {
                Some((mut content, j)) => {
                    content.insert(0, c);
                    proof {
                        assert(content@ =~= seq![c] + content@.drop_first());
                    }
                    Some((content, j))
                },
                None => None,
            }
        }
    }
}

/// The u64 range capped one past its end: a running value that has left
/// the range is held at the cap, so overflow is detected exactly.
fn p_digits(v: &Vec<char>, i: usize, acc: u128, Ghost(spec_acc): Ghost<nat>) -> (r: (u128, usize))
    requires
        i <= v.len(),
        acc == if spec_acc > u64::MAX { (u64::MAX as u128 + 1) as u128 } else { spec_acc as u128 },
    ensures
        ({
            let sp = parse_digits(v@.skip(i as int), spec_acc);
            &&& i <= r.1 <= v.len()
            &&& sp.1 == v@.skip(r.1 as int)
            &&& r.0 == if sp.0 > u64::MAX {
                (u64::MAX as u128 + 1) as u128
            } else {
                sp.0 as u128
            }
        }),
    decreases v.len() - i,
{
    let ghost s = v@.skip(i as int);
    if i < v.len() {
        proof {
            assert(s[0] == v@[i as int]);
        }
        let c = v[i];
        if is_digit_exec(c) {
            let d = digit_val_exec(c);
            let cap: u128 = (u64::MAX as u128 + 1) as u128;
            let next: u128 = if acc >= cap {
                cap
            } else {
                let t: u128 = acc * 10 + d as u128;
                if t > u64::MAX as u128 {
                    cap
                } else {
                    t
                }
            };
            proof {
                assert(s.drop_first() =~= v@.skip(i + 1 as int));
                if spec_acc > u64::MAX {
                    assert(spec_acc * 10 + digit_val(c) > u64::MAX) by (nonlinear_arith)
                        requires
                            spec_acc > u64::MAX,
                    ;
                }
            }
            p_digits(v, i + 1, next, Ghost(spec_acc * 10 + digit_val(c)))
        } else {
            (acc, i)
        }
    } else {
        (acc, i)
    }
}

/// Parses a decimal number; the first component is the value, capped one
/// past the u64 range when it does not fit.
fn p_num(v: &Vec<char>, i: usize) -> (r: Option<(u128, usize)>)
    requires
        i <= v.len(),
    ensures
        match r {
            Some(p) => parse_num(v@.skip(i as int)) matches Some(sp) && p.1 <= v.len() && sp.1
                == v@.skip(p.1 as int) && p.0 == (if sp.0 > u64::MAX {
                (u64::MAX as u128 + 1) as u128
            } else {
                sp.0 as u128
            }),
            None => parse_num(v@.skip(i as int)) is None,
        },
{
    if i < v.len() {
        proof {
            assert(v@.skip(i as int)[0] == v@[i as int]);
        }
        if is_digit_exec(v[i]) {
            let (val, j) = p_digits(v, i, 0, Ghost(0nat));
            Some((val, j))
        } else {
            None
        }
    } else {
        None
    }
}

fn p_members(v: &Vec<char>, i: usize) -> (r: Option<(Vec<(String, String)>, usize)>)
    requires
        i <= v.len(),
    ensures
        match r {
            Some(p) => p.1 <= v.len() && parse_members(v@.skip(i as int)) == Some(
                (key_values_view(p.0@), v@.skip(p.1 as int)),
            ),
            None => parse_members(v@.skip(i as int)) is None,
        },
    decreases v.len() - i,
{
    let ghost s = v@.skip(i as int);
    if i == v.len() {
        None
    } else {
        proof {
            assert(s[0] == v@[i as int]);
        }
        if v[i] == '"' {
            proof {
                assert(s.drop_first() =~= v@.skip(i + 1 as int));
            }
            match p_string_body(v, i + 1) {
                Some((kc, j1)) => {
                    let ghost kp = parse_string_body(s.drop_first())->0;
                    proof {
                        assert(kp.1 == v@.skip(j1 as int));
                    }
                    if v.len() - j1 >= 2 {
                        proof {
                            assert(kp.1[0] == v@[j1 as int]);
                            assert(kp.1[1] == v@[j1 + 1 as int]);
                        }
                        if v[j1] == ':' && v[j1 + 1] == '"' {
                            proof {
                                assert(kp.1.skip(2) =~= v@.skip(j1 + 2 as int));
                            }
                            match p_string_body(v, j1 + 2) {
                                Some((vc, j2)) => {
                                    let ghost vp = parse_string_body(kp.1.skip(2))->0;
                                    proof {
                                        assert(vp.1 == v@.skip(j2 as int));
                                    }
                                    if j2 < v.len() {
                                        proof {
                                            assert(vp.1[0] == v@[j2 as int]);
                                        }
                                        if v[j2] == ',' {
                                            proof {
                                                assert(vp.1.skip(1) =~= v@.skip(j2 + 1 as int));
                                                lemma_string_body_shrinks(v@.skip(i + 1 as int));
                                                lemma_string_body_shrinks(v@.skip(j1 + 2 as int));
                                            }
                                            match p_members(v, j2 + 1) {
                                                Some((mut rest, j3)) => {
                                                    let ks = chars_string(kc);
                                                    let vs = chars_string(vc);
                                                    rest.insert(0, (ks, vs));
                                                    proof {
                                                        assert(key_values_view(rest@) =~= seq![
                                                            (kp.0, vp.0),
                                                        ] + key_values_view(
                                                            rest@.drop_first(),
                                                        ));
                                                    }
                                                    Some((rest, j3))
                                                },
                                                None => None,
                                            }
                                        } else if v[j2] == '}' {
                                            proof {
                                                assert(vp.1.skip(1) =~= v@.skip(j2 + 1 as int));
                                            }
                                            let ks = chars_string(kc);
                                            let vs = chars_string(vc);
                                            let mut one: Vec<(String, String)> = Vec::new();
                                            one.push((ks, vs));
                                            proof {
                                                assert(key_values_view(one@) =~= seq![
                                                    (kp.0, vp.0),
                                                ]);
                                            }
                                            Some((one, j2 + 1))
                                        } else {
                                            None
                                        }
                                    } else {
                                        None
                                    }
                                },
                                None => None,
                            }
                        } else {
                            None
                        }
                    } else {
                        None
                    }
                },
                None => None,
            }
        } else {
            None
        }
    }
}

fn p_elems(v: &Vec<char>, i: usize) -> (r: Option<(Vec<u8>, usize)>)
    requires
        i <= v.len(),
    ensures
        match r {
            Some(p) => p.1 <= v.len() && parse_elems(v@.skip(i as int)) == Some(
                (p.0@, v@.skip(p.1 as int)),
            ),
            None => parse_elems(v@.skip(i as int)) is None,
        },
    decreases v.len() - i,
{
    let ghost s = v@.skip(i as int);
    match p_num(v, i) {
        Some((val, j)) => {
            let ghost np = parse_num(s)->0;
            proof {
                assert(np.1 == v@.skip(j as int));
                lemma_digits_shrink(s, 0);
            }
            if val <= 255 {
                if j < v.len() {
                    proof {
                        assert(np.1[0] == v@[j as int]);
                    }
                    if v[j] == ',' {
                        proof {
                            assert(np.1.skip(1) =~= v@.skip(j + 1 as int));
                        }
                        match p_elems(v, j + 1) {
                            Some((mut rest, j2)) => {
                                rest.insert(0, val as u8);
                                proof {
                                    assert(rest@ =~= seq![np.0 as u8] + rest@.drop_first());
                                }
                                Some((rest, j2))
                            },
                            None => None,
                        }
                    } else if v[j] == ']' {
                        proof {
                            assert(np.1.skip(1) =~= v@.skip(j + 1 as int));
                        }
                        let mut one: Vec<u8> = Vec::new();
                        one.push(val as u8);
                        proof {
                            assert(one@ =~= seq![np.0 as u8]);
                        }
                        Some((one, j + 1))
                    } else {
                        None
                    }
                } else {
                    None
                }
            } else {
                None
            }
        },
        None => None,
    }
}

fn eat_lit(v: &Vec<char>, i: usize, lit: &str) -> (r: Option<usize>)
    requires
        i <= v.len(),
    ensures
        match r {
            Some(j) => i <= j <= v.len() && starts_with(v@.skip(i as int), lit@) && v@.skip(
                j as int,
            ) == v@.skip(i as int).skip(lit@.len() as int),
            None => !starts_with(v@.skip(i as int), lit@),
        },
{
    let litv = chars_vec(lit);
    let n = litv.len();
    if n > v.len() - i {
        return None;
    }
    let mut j: usize = 0;
    while j < n
        invariant
            i + n <= v.len(),
            n == litv.len(),
            litv@ == lit@,
            j <= n,
            forall|k: int| 0 <= k < j ==> v@[i + k] == lit@[k],
        decreases n - j,
    {
        if v[i + j] != litv[j] {
            proof {
                assert(v@.skip(i as int)[j as int] == v@[i + j]);
                assert(!starts_with(v@.skip(i as int), lit@)) by {
                    if starts_with(v@.skip(i as int), lit@) {
                        let k = j as int;
                        assert(v@.skip(i as int).take(lit@.len() as int)[k] == lit@[k]);
                    }
                }
            }
            return None;
        }
        j = j + 1;
    }
    proof {
        assert(v@.skip(i as int).take(lit@.len() as int) =~= lit@);
        assert(v@.skip(i + n as int) =~= v@.skip(i as int).skip(lit@.len() as int));
    }
    Some(i + n)
}

/// Decodes an interchange text back to a proof record.
///
/// The result is exactly what `parse_record_text` says of the input: a
/// record whose value the whole text encodes, or nothing.
#[verifier::rlimit(60)]
pub fn deserialize_zkp_message(s: &str) -> (r: Option<ZeroKnowledgeProof>)
    ensures
        match r {
            Some(rec) => parse_record_text(s@) == Some(rec@),
            None => parse_record_text(s@) is None,
        },
{
    let v = chars_vec(s);
    proof {
        assert(v@.skip(0) =~= s@);
    }
    let i1 = match eat_lit(&v, 0, "{\"key_values\":") {
        Some(j) => j,
        None => {
            return None;
        },
    };
    let (kv, i2) = match p_object(&v, i1) {
        Some(p) => p,
        None => {
            return None;
        },
    };
    let i3 = match eat_lit(&v, i2, ",\"block_number\":") {
        Some(j) => j,
        None => {
            return None;
        },
    };
    let (num, i4) = match p_num(&v, i3) {
        Some(p) => p,
        None => {
            return None;
        },
    };
    if num > u64::MAX as u128 {
        return None;
    }
    let i5 = match eat_lit(&v, i4, ",\"data\":") {
        Some(j) => j,
        None => {
            return None;
        },
    };
    let (data, i6) = match p_array(&v, i5) {
        Some(p) => p,
        None => {
            return None;
        },
    };
    if v.len() - i6 == 1 && v[i6] == '}' {
        proof {
            assert(v@.skip(i6 as int)[0] == v@[i6 as int]);
            assert(v@.skip(i6 as int).len() == 1);
        }
        Some(ZeroKnowledgeProof { key_values: kv, block_number: num as u64, data })
    } else {
        proof {
            if v@.skip(i6 as int).len() == 1 {
                assert(v@.skip(i6 as int)[0] == v@[i6 as int]);
            }
        }
        None
    }
}

fn p_object(v: &Vec<char>, i: usize) -> (r: Option<(Vec<(String, String)>, usize)>)
    requires
        i <= v.len(),
    ensures
        match r {
            Some(p) => p.1 <= v.len() && parse_object(v@.skip(i as int)) == Some(
                (key_values_view(p.0@), v@.skip(p.1 as int)),
            ),
            None => parse_object(v@.skip(i as int)) is None,
        },
{
    let ghost s = v@.skip(i as int);
    if i == v.len() {
        return None;
    }
    proof {
        assert(s[0] == v@[i as int]);
    }
    if v[i] != '{' {
        return None;
    }
    if i + 1 < v.len() {
        proof {
            assert(s[1] == v@[i + 1 as int]);
        }
        if v[i + 1] == '}' {
            proof {
                assert(s.skip(2) =~= v@.skip(i + 2 as int));
                assert(key_values_view(Seq::<(String, String)>::empty()) =~= Seq::<
                    (Seq<char>, Seq<char>),
                >::empty());
            }
            return Some((Vec::new(), i + 2));
        }
    }
    proof {
        assert(s.drop_first() =~= v@.skip(i + 1 as int));
    }
    p_members(v, i + 1)
}

fn p_array(v: &Vec<char>, i: usize) -> (r: Option<(Vec<u8>, usize)>)
    requires
        i <= v.len(),
    ensures
        match r {
            Some(p) => p.1 <= v.len() && parse_array(v@.skip(i as int)) == Some(
                (p.0@, v@.skip(p.1 as int)),
            ),
            None => parse_array(v@.skip(i as int)) is None,
        },
{
    let ghost s = v@.skip(i as int);
    if i == v.len() {
        return None;
    }
    proof {
        assert(s[0] == v@[i as int]);
    }
    if v[i] != '[' {
        return None;
    }
    if i + 1 < v.len() {
        proof {
            assert(s[1] == v@[i + 1 as int]);
        }
        if v[i + 1] == ']' {
            proof {
                assert(s.skip(2) =~= v@.skip(i + 2 as int));
            }
            return Some((Vec::new(), i + 2));
        }
    }
    proof {
        assert(s.drop_first() =~= v@.skip(i + 1 as int));
    }
    p_elems(v, i + 1)
}

} // verus!
