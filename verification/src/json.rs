//! The wire format: a compact subset of JSON sufficient for the RMI
//! protocol — objects, strings, decimal numbers, booleans and null;
//! no arrays, no escapes, no insignificant whitespace.
//!
//! The format is specified twice: a ghost model (`JValM`) with a spec-level
//! printer and parser related by a round-trip theorem, and executable
//! values (`JVal`) whose printer and parser are proved to implement the
//! spec ones on the model.

use vstd::prelude::*;
use crate::num::{all_digits, is_digit};

verus! {

// ---------------------------------------------------------------------------
// ghost model
// ---------------------------------------------------------------------------

/// Ghost model of a decimal number: optional sign, integer digits,
/// fractional digits (empty when the number is an integer).
pub ghost struct JNumM {
    pub neg: bool,
    pub int_digits: Seq<u8>,
    pub frac_digits: Seq<u8>,
}

/// Ghost model of a wire value.
pub ghost enum JValM {
    Null,
    Bool(bool),
    Num(JNumM),
    Str(Seq<u8>),
    Obj(Seq<(Seq<u8>, JValM)>),
}

/// Bytes allowed inside a string or key: printable ASCII without the
/// quote and backslash, so no escaping is ever needed.
pub open spec fn str_byte_ok(b: u8) -> bool {
    32 <= b <= 126 && b != 34 && b != 92
}

pub open spec fn str_ok(s: Seq<u8>) -> bool {
    forall|i: int| 0 <= i < s.len() ==> str_byte_ok(#[trigger] s[i])
}

pub open spec fn num_wf(n: JNumM) -> bool {
    n.int_digits.len() >= 1 && all_digits(n.int_digits) && all_digits(n.frac_digits)
}

/// A printable value.
pub open spec fn jval_wf(v: JValM) -> bool
    decreases v, 0int,
{
    match v {
        JValM::Null => true,
        JValM::Bool(_) => true,
        JValM::Num(n) => num_wf(n),
        JValM::Str(s) => str_ok(s),
        JValM::Obj(pairs) => jpairs_wf(pairs, 0),
    }
}

/// Pairs from index `i` on are well-formed.
pub open spec fn jpairs_wf(pairs: Seq<(Seq<u8>, JValM)>, i: int) -> bool
    decreases pairs, pairs.len() - i,
{
    i >= pairs.len() || (0 <= i && str_ok(pairs[i].0) && jval_wf(pairs[i].1) && jpairs_wf(
        pairs,
        i + 1,
    ))
}

// byte constants of the grammar
pub const Q: u8 = 34;  // '"'
pub const COMMA: u8 = 44;  // ','
pub const MINUS: u8 = 45;  // '-'
pub const DOT: u8 = 46;  // '.'
pub const COLON: u8 = 58;  // ':'
pub const LBRACE: u8 = 123;  // '{'
pub const RBRACE: u8 = 125;  // '}'

pub open spec fn lit_null() -> Seq<u8> {
    seq![110u8, 117u8, 108u8, 108u8]
}

pub open spec fn lit_true() -> Seq<u8> {
    seq![116u8, 114u8, 117u8, 101u8]
}

pub open spec fn lit_false() -> Seq<u8> {
    seq![102u8, 97u8, 108u8, 115u8, 101u8]
}

// ---------------------------------------------------------------------------
// spec printer
// ---------------------------------------------------------------------------

pub open spec fn print_num(n: JNumM) -> Seq<u8> {
    (if n.neg {
        seq![MINUS]
    } else {
        Seq::<u8>::empty()
    }) + n.int_digits + (if n.frac_digits.len() == 0 {
        Seq::<u8>::empty()
    } else {
        seq![DOT] + n.frac_digits
    })
}

pub open spec fn print_jval(v: JValM) -> Seq<u8>
    decreases v, 0int,
{
    match v {
        JValM::Null => lit_null(),
        JValM::Bool(b) => if b {
            lit_true()
        } else {
            lit_false()
        },
        JValM::Num(n) => print_num(n),
        JValM::Str(s) => seq![Q] + s + seq![Q],
        JValM::Obj(pairs) => seq![LBRACE] + print_jpairs(pairs, 0) + seq![RBRACE],
    }
}

/// Prints the pairs from index `i` on, comma separated, no braces.
pub open spec fn print_jpairs(pairs: Seq<(Seq<u8>, JValM)>, i: int) -> Seq<u8>
    decreases pairs, pairs.len() - i,
{
    if i < 0 || i >= pairs.len() {
        Seq::<u8>::empty()
    } else if i == pairs.len() - 1 {
        print_jpair(pairs[i])
    } else {
        print_jpair(pairs[i]) + seq![COMMA] + print_jpairs(pairs, i + 1)
    }
}

pub open spec fn print_jpair(p: (Seq<u8>, JValM)) -> Seq<u8>
    decreases p, 0int,
{
    seq![Q] + p.0 + seq![Q, COLON] + print_jval(p.1)
}

// ---------------------------------------------------------------------------
// spec parser
// ---------------------------------------------------------------------------

/// Scans a run of digits starting at `i`; returns the digits and the index
/// just past them.
pub open spec fn scan_digits(s: Seq<u8>, i: int) -> (Seq<u8>, int)
    decreases s.len() - i,
{
    if i < 0 || i >= s.len() || !is_digit(s[i]) {
        (Seq::<u8>::empty(), i)
    } else {
        let (d, j) = scan_digits(s, i + 1);
        (seq![s[i]] + d, j)
    }
}

/// Parses a string body starting just after the opening quote; returns the
/// contents and the index just past the closing quote. Escapes are not
/// part of the wire subset and fail the parse.
pub open spec fn parse_str_body(s: Seq<u8>, i: int) -> Option<(Seq<u8>, int)>
    decreases s.len() - i,
{
    if i < 0 || i >= s.len() {
        None
    } else if s[i] == Q {
        Some((Seq::<u8>::empty(), i + 1))
    } else if str_byte_ok(s[i]) {
        match parse_str_body(s, i + 1) {
            Some((t, j)) => Some((seq![s[i]] + t, j)),
            None => None,
        }
    } else {
        None
    }
}

/// Parses a number starting at `i` (optional minus sign, integer digits,
/// optional dot and fraction digits).
pub open spec fn parse_num(s: Seq<u8>, i: int) -> Option<(JNumM, int)> {
    if i < 0 || i >= s.len() {
        None
    } else {
        let neg = s[i] == MINUS;
        let i1 = if neg {
            i + 1
        } else {
            i
        };
        let (ints, j) = scan_digits(s, i1);
        if ints.len() == 0 {
            None
        } else if j < s.len() && s[j] == DOT {
            let (fracs, k) = scan_digits(s, j + 1);
            if fracs.len() == 0 {
                None
            } else {
                Some((JNumM { neg, int_digits: ints, frac_digits: fracs }, k))
            }
        } else {
            Some((JNumM { neg, int_digits: ints, frac_digits: Seq::empty() }, j))
        }
    }
}

/// Parses one value starting at `i`. `fuel` bounds the nesting and is
/// consumed on every structural recursion.
pub open spec fn parse_jval(s: Seq<u8>, i: int, fuel: nat) -> Option<(JValM, int)>
    decreases fuel,
{
    if fuel == 0 || i < 0 || i >= s.len() {
        None
    } else if s[i] == 110 {
        if i + 4 <= s.len() && s.subrange(i, i + 4) == lit_null() {
            Some((JValM::Null, i + 4))
        } else {
            None
        }
    } else if s[i] == 116 {
        if i + 4 <= s.len() && s.subrange(i, i + 4) == lit_true() {
            Some((JValM::Bool(true), i + 4))
        } else {
            None
        }
    } else if s[i] == 102 {
        if i + 5 <= s.len() && s.subrange(i, i + 5) == lit_false() {
            Some((JValM::Bool(false), i + 5))
        } else {
            None
        }
    } else if s[i] == Q {
        match parse_str_body(s, i + 1) {
            Some((t, j)) => Some((JValM::Str(t), j)),
            None => None,
        }
    } else if s[i] == LBRACE {
        if i + 1 < s.len() && s[i + 1] == RBRACE {
            Some((JValM::Obj(Seq::empty()), i + 2))
        } else {
            match parse_jpairs(s, i + 1, (fuel - 1) as nat) {
                Some((pairs, j)) => Some((JValM::Obj(pairs), j)),
                None => None,
            }
        }
    } else if s[i] == MINUS || is_digit(s[i]) {
        match parse_num(s, i) {
            Some((n, j)) => Some((JValM::Num(n), j)),
            None => None,
        }
    } else {
        None
    }
}

/// Parses one or more `"key":value` pairs and the closing brace; returns
/// the pairs and the index just past the brace.
pub open spec fn parse_jpairs(s: Seq<u8>, i: int, fuel: nat) -> Option<
    (Seq<(Seq<u8>, JValM)>, int),
>
    decreases fuel,
{
    if fuel == 0 || i < 0 || i >= s.len() || s[i] != Q {
        None
    } else {
        match parse_str_body(s, i + 1) {
            None => None,
            Some((key, j)) => if j < s.len() && s[j] == COLON {
                match parse_jval(s, j + 1, (fuel - 1) as nat) {
                    None => None,
                    Some((v, k)) => if k < s.len() && s[k] == COMMA {
                        match parse_jpairs(s, k + 1, (fuel - 1) as nat) {
                            None => None,
                            Some((rest, m)) => Some((seq![(key, v)] + rest, m)),
                        }
                    } else if k < s.len() && s[k] == RBRACE {
                        Some((seq![(key, v)], k + 1))
                    } else {
                        None
                    },
                }
            } else {
                None
            },
        }
    }
}

// ---------------------------------------------------------------------------
// fuel measure for the round trip
// ---------------------------------------------------------------------------

/// Fuel sufficient to parse the printed form of `v`.
pub open spec fn jval_size(v: JValM) -> nat
    decreases v, 0int,
{
    match v {
        JValM::Obj(pairs) => 2 + jpairs_size(pairs, 0),
        _ => 1,
    }
}

pub open spec fn jpairs_size(pairs: Seq<(Seq<u8>, JValM)>, i: int) -> nat
    decreases pairs, pairs.len() - i,
{
    if i < 0 || i >= pairs.len() {
        0
    } else {
        1 + jval_size(pairs[i].1) + jpairs_size(pairs, i + 1)
    }
}

// ---------------------------------------------------------------------------
// round trip: parsing a printed value yields the value back
// ---------------------------------------------------------------------------

/// A byte that may legally follow a complete printed value: anything that
/// cannot extend a number.
pub open spec fn terminator_ok(s: Seq<u8>, e: int) -> bool {
    e == s.len() || (!is_digit(s[e]) && s[e] != DOT)
}

/// A subrange of a subrange of `s` is the corresponding subrange of the inner view.
pub proof fn lemma_subrange_within(s: Seq<u8>, i: int, p: Seq<u8>, a: int, b: int)
    requires
        0 <= i,
        i + p.len() <= s.len(),
        s.subrange(i, i + p.len()) == p,
        0 <= a <= b <= p.len(),
    ensures
        s.subrange(i + a, i + b) == p.subrange(a, b),
{
    assert(s.subrange(i + a, i + b) =~= p.subrange(a, b)) by {
        assert forall|k: int| 0 <= k < b - a implies s.subrange(i + a, i + b)[k] == p.subrange(
            a,
            b,
        )[k] by {
            assert(s.subrange(i, i + p.len())[a + k] == s[i + a + k]);
        }
    }
}

pub proof fn lemma_scan_digits(d: Seq<u8>, s: Seq<u8>, i: int)
    requires
        all_digits(d),
        0 <= i,
        i + d.len() <= s.len(),
        s.subrange(i, i + d.len()) == d,
        i + d.len() == s.len() || !is_digit(s[i + d.len()]),
    ensures
        scan_digits(s, i) == (d, i + d.len()),
    decreases d.len(),
{
    if d.len() == 0 {
        assert(scan_digits(s, i) == (Seq::<u8>::empty(), i));
        assert(d =~= Seq::<u8>::empty());
    } else {
        assert(s[i] == d[0]) by {
            assert(s.subrange(i, i + d.len())[0] == s[i]);
        }
        let d2 = d.subrange(1, d.len() as int);
        lemma_subrange_within(s, i, d, 1, d.len() as int);
        lemma_scan_digits(d2, s, i + 1);
        assert(seq![s[i]] + d2 =~= d);
    }
}

pub proof fn lemma_parse_str_body(t: Seq<u8>, s: Seq<u8>, i: int)
    requires
        str_ok(t),
        0 <= i,
        i + t.len() + 1 <= s.len(),
        s.subrange(i, i + t.len()) == t,
        s[i + t.len()] == Q,
    ensures
        parse_str_body(s, i) == Some((t, i + t.len() + 1)),
    decreases t.len(),
{
    if t.len() == 0 {
        assert(t =~= Seq::<u8>::empty());
    } else {
        assert(s[i] == t[0]) by {
            assert(s.subrange(i, i + t.len())[0] == s[i]);
        }
        assert(str_byte_ok(t[0]));
        assert(t[0] != Q);
        let t2 = t.subrange(1, t.len() as int);
        lemma_subrange_within(s, i, t, 1, t.len() as int);
        assert(str_ok(t2));
        lemma_parse_str_body(t2, s, i + 1);
        assert(seq![s[i]] + t2 =~= t);
    }
}

pub proof fn lemma_parse_num(n: JNumM, s: Seq<u8>, i: int)
    requires
        num_wf(n),
        0 <= i,
        i + print_num(n).len() <= s.len(),
        s.subrange(i, i + print_num(n).len()) == print_num(n),
        terminator_ok(s, i + print_num(n).len()),
    ensures
        parse_num(s, i) == Some((n, i + print_num(n).len())),
{
    let p = print_num(n);
    let e = i + p.len();
    let i1 = if n.neg {
        i + 1
    } else {
        i
    };
    assert(s[i] == p[0]) by {
        assert(s.subrange(i, i + p.len())[0] == s[i]);
    }
    if n.neg {
        assert(p[0] == MINUS);
        assert(s[i] == MINUS);
    } else {
        assert(p[0] == n.int_digits[0]);
        assert(is_digit(s[i]));
        assert(s[i] != MINUS);
    }
    let ioff = if n.neg {
        1int
    } else {
        0int
    };
    // the integer digits stand at i1
    lemma_subrange_within(s, i, p, ioff, ioff + n.int_digits.len());
    assert(p.subrange(ioff, ioff + n.int_digits.len()) =~= n.int_digits);
    let j = i1 + n.int_digits.len();
    if n.frac_digits.len() == 0 {
        assert(j == e);
        lemma_scan_digits(n.int_digits, s, i1);
        assert(!(j < s.len() && s[j] == DOT));
        assert(parse_num(s, i) == Some((JNumM { neg: n.neg, int_digits: n.int_digits, frac_digits: Seq::empty() }, j)));
        assert(n.frac_digits =~= Seq::<u8>::empty());
        assert((JNumM { neg: n.neg, int_digits: n.int_digits, frac_digits: Seq::empty() }) == n);
    } else {
        assert(s[j] == DOT) by {
            assert(s.subrange(i, i + p.len())[j - i] == s[j]);
            assert(p[ioff + n.int_digits.len()] == DOT);
        }
        lemma_scan_digits(n.int_digits, s, i1);
        lemma_subrange_within(s, i, p, ioff + n.int_digits.len() + 1, p.len() as int);
        assert(p.subrange(ioff + n.int_digits.len() + 1, p.len() as int) =~= n.frac_digits);
        lemma_scan_digits(n.frac_digits, s, j + 1);
        assert(j + 1 + n.frac_digits.len() == e);
    }
}

pub proof fn lemma_parse_print_jval(v: JValM, s: Seq<u8>, i: int, fuel: nat)
    requires
        jval_wf(v),
        0 <= i,
        i + print_jval(v).len() <= s.len(),
        s.subrange(i, i + print_jval(v).len()) == print_jval(v),
        fuel >= jval_size(v),
        terminator_ok(s, i + print_jval(v).len()),
    ensures
        parse_jval(s, i, fuel) == Some((v, i + print_jval(v).len())),
    decreases v, 0int,
{
    let p = print_jval(v);
    let e = i + p.len();
    assert(s[i] == p[0]) by {
        assert(s.subrange(i, i + p.len())[0] == s[i]);
    }
    match v {
        JValM::Null => {
            assert(p == lit_null());
            assert(s[i] == 110);
            assert(s.subrange(i, i + 4) == lit_null());
        },
        JValM::Bool(b) => {
            if b {
                assert(p == lit_true());
                assert(s[i] == 116);
                assert(s.subrange(i, i + 4) == lit_true());
            } else {
                assert(p == lit_false());
                assert(s[i] == 102);
                assert(s.subrange(i, i + 5) == lit_false());
                assert(s[i] != 110 && s[i] != 116);
            }
        },
        JValM::Num(n) => {
            assert(p == print_num(n));
            if n.neg {
                assert(p[0] == MINUS);
            } else {
                assert(p[0] == n.int_digits[0]);
                assert(is_digit(p[0]));
            }
            assert(s[i] != 110 && s[i] != 116 && s[i] != 102 && s[i] != Q && s[i] != LBRACE);
            assert(s[i] == MINUS || is_digit(s[i]));
            lemma_parse_num(n, s, i);
        },
        JValM::Str(t) => {
            assert(p == seq![Q] + t + seq![Q]);
            assert(p[0] == Q);
            lemma_subrange_within(s, i, p, 1, 1 + t.len() as int);
            assert(p.subrange(1, 1 + t.len() as int) =~= t);
            assert(s[i + 1 + t.len()] == Q) by {
                assert(s.subrange(i, i + p.len())[1 + t.len() as int] == s[i + 1 + t.len()]);
                assert(p[1 + t.len() as int] == Q);
            }
            lemma_parse_str_body(t, s, i + 1);
        },
        JValM::Obj(pairs) => {
            assert(p[0] == LBRACE);
            assert(s[i] == LBRACE);
            let inner = print_jpairs(pairs, 0);
            assert(p == seq![LBRACE] + inner + seq![RBRACE]);
            assert(s[i + 1 + inner.len()] == RBRACE) by {
                assert(s.subrange(i, i + p.len())[1 + inner.len() as int] == s[i + 1 + inner.len()]);
                assert(p[1 + inner.len() as int] == RBRACE);
            }
            if pairs.len() == 0 {
                assert(inner =~= Seq::<u8>::empty());
                assert(s[i + 1] == RBRACE);
                assert(parse_jval(s, i, fuel) == Some((JValM::Obj(Seq::empty()), i + 2)));
                assert(pairs =~= Seq::<(Seq<u8>, JValM)>::empty());
            } else {
                assert(inner[0] == Q) by {
                    assert(print_jpair(pairs[0])[0] == Q);
                    if pairs.len() == 1 {
                        assert(inner == print_jpair(pairs[0]));
                    } else {
                        assert(inner == print_jpair(pairs[0]) + seq![COMMA] + print_jpairs(
                            pairs,
                            1,
                        ));
                        assert(inner[0] == print_jpair(pairs[0])[0]);
                    }
                }
                assert(s[i + 1] == Q) by {
                    assert(s.subrange(i, i + p.len())[1] == s[i + 1]);
                    assert(p[1] == inner[0]);
                }
                assert(s[i + 1] != RBRACE);
                lemma_subrange_within(s, i, p, 1, 1 + inner.len() as int);
                assert(p.subrange(1, 1 + inner.len() as int) =~= inner);
                lemma_parse_print_jpairs(pairs, 0, s, i + 1, (fuel - 1) as nat);
                assert(pairs.subrange(0, pairs.len() as int) =~= pairs);
            }
        },
    }
}

pub proof fn lemma_parse_print_jpairs(
    pairs: Seq<(Seq<u8>, JValM)>,
    jdx: int,
    s: Seq<u8>,
    i: int,
    fuel: nat,
)
    requires
        0 <= jdx < pairs.len(),
        jpairs_wf(pairs, jdx),
        0 <= i,
        i + print_jpairs(pairs, jdx).len() + 1 <= s.len(),
        s.subrange(i, i + print_jpairs(pairs, jdx).len()) == print_jpairs(pairs, jdx),
        s[i + print_jpairs(pairs, jdx).len()] == RBRACE,
        fuel >= jpairs_size(pairs, jdx),
    ensures
        parse_jpairs(s, i, fuel) == Some(
            (pairs.subrange(jdx, pairs.len() as int), i + print_jpairs(pairs, jdx).len() + 1),
        ),
    decreases pairs, pairs.len() - jdx,
{
    let pp = print_jpairs(pairs, jdx);
    let key = pairs[jdx].0;
    let v = pairs[jdx].1;
    let p1 = print_jpair(pairs[jdx]);
    let pv = print_jval(v);
    assert(p1 == seq![Q] + key + seq![Q, COLON] + pv);
    assert(p1.len() == key.len() + 3 + pv.len());
    // the key with its quotes and the colon
    let last = jdx == pairs.len() - 1;
    if last {
        assert(pp == p1);
    } else {
        assert(pp == p1 + seq![COMMA] + print_jpairs(pairs, jdx + 1));
    }
    assert forall|k: int| 0 <= k < p1.len() implies pp[k] == p1[k] by {}
    assert(s[i] == Q) by {
        assert(s.subrange(i, i + pp.len())[0] == s[i]);
        assert(pp[0] == p1[0]);
        assert(p1[0] == Q);
    }
    assert(s.subrange(i + 1, i + 1 + key.len()) == key) by {
        lemma_subrange_within(s, i, pp, 1, 1 + key.len() as int);
        assert(pp.subrange(1, 1 + key.len() as int) =~= key) by {
            assert forall|k: int| 0 <= k < key.len() implies pp.subrange(1, 1 + key.len() as int)[k]
                == key[k] by {
                assert(pp[1 + k] == p1[1 + k]);
                assert(p1[1 + k] == key[k]);
            }
        }
    }
    assert(s[i + 1 + key.len()] == Q) by {
        assert(s.subrange(i, i + pp.len())[1 + key.len() as int] == s[i + 1 + key.len()]);
        assert(pp[1 + key.len() as int] == p1[1 + key.len() as int]);
        assert(p1[1 + key.len() as int] == Q);
    }
    lemma_parse_str_body(key, s, i + 1);
    let j = i + key.len() + 2;
    assert(s[j] == COLON) by {
        assert(s.subrange(i, i + pp.len())[key.len() as int + 2] == s[j]);
        assert(pp[key.len() as int + 2] == p1[key.len() as int + 2]);
        assert(p1[key.len() as int + 2] == COLON);
    }
    // the value stands at j + 1
    let vstart = j + 1;
    assert(s.subrange(vstart, vstart + pv.len()) == pv) by {
        lemma_subrange_within(s, i, pp, key.len() as int + 3, key.len() as int + 3 + pv.len() as int);
        assert(pp.subrange(key.len() as int + 3, key.len() as int + 3 + pv.len() as int) =~= pv) by {
            assert forall|k: int| 0 <= k < pv.len() implies pp.subrange(
                key.len() as int + 3,
                key.len() as int + 3 + pv.len() as int,
            )[k] == pv[k] by {
                assert(pp[key.len() as int + 3 + k] == p1[key.len() as int + 3 + k]);
                assert(p1[key.len() + 3 + k] == pv[k]);
            }
        }
    }
    let vend = vstart + pv.len();
    if last {
        assert(vend == i + pp.len());
        assert(s[vend] == RBRACE);
        assert(terminator_ok(s, vend));
        lemma_parse_print_jval(v, s, vstart, (fuel - 1) as nat);
        assert(parse_jpairs(s, i, fuel) == Some((seq![(key, v)], vend + 1)));
        assert(seq![(key, v)] =~= pairs.subrange(jdx, pairs.len() as int));
    } else {
        let rest = print_jpairs(pairs, jdx + 1);
        assert(s[vend] == COMMA) by {
            assert(s.subrange(i, i + pp.len())[p1.len() as int] == s[i + p1.len()]);
            assert(pp[p1.len() as int] == COMMA);
        }
        assert(terminator_ok(s, vend));
        lemma_parse_print_jval(v, s, vstart, (fuel - 1) as nat);
        // the remaining pairs stand after the comma
        let rstart = vend + 1;
        assert(s.subrange(rstart, rstart + rest.len()) == rest) by {
            lemma_subrange_within(s, i, pp, p1.len() as int + 1, pp.len() as int);
            assert(pp.subrange(p1.len() as int + 1, pp.len() as int) =~= rest) by {
                assert forall|k: int| 0 <= k < rest.len() implies pp.subrange(
                    p1.len() as int + 1,
                    pp.len() as int,
                )[k] == rest[k] by {
                    assert(pp[p1.len() + 1 + k] == rest[k]);
                }
            }
        }
        assert(s[rstart + rest.len()] == RBRACE);
        lemma_parse_print_jpairs(pairs, jdx + 1, s, rstart, (fuel - 1) as nat);
        assert(parse_jpairs(s, i, fuel) == Some(
            (seq![(key, v)] + pairs.subrange(jdx + 1, pairs.len() as int), rstart + rest.len()
                + 1),
        ));
        assert(seq![(key, v)] + pairs.subrange(jdx + 1, pairs.len() as int) =~= pairs.subrange(
            jdx,
            pairs.len() as int,
        ));
    }
}

// ---------------------------------------------------------------------------
// executable values
// ---------------------------------------------------------------------------

/// Executable decimal number, kept as digit text.
#[derive(Debug)]
pub struct JNum {
    pub neg: bool,
    pub int_digits: Vec<u8>,
    pub frac_digits: Vec<u8>,
}

impl JNum {
    pub open spec fn model(self) -> JNumM {
        JNumM { neg: self.neg, int_digits: self.int_digits@, frac_digits: self.frac_digits@ }
    }
}

/// Executable wire value.
#[derive(Debug)]
pub enum JVal {
    Null,
    Bool(bool),
    Num(JNum),
    Str(Vec<u8>),
    Obj(Vec<(Vec<u8>, JVal)>),
}

impl JVal {
    pub open spec fn model(self) -> JValM
        decreases self, 0int,
    {
        match self {
            JVal::Null => JValM::Null,
            JVal::Bool(b) => JValM::Bool(b),
            JVal::Num(n) => JValM::Num(n.model()),
            JVal::Str(s) => JValM::Str(s@),
            JVal::Obj(pairs) => JValM::Obj(model_pairs(pairs@, 0)),
        }
    }
}

/// Ghost model of an executable pair list, from index `i` on.
pub open spec fn model_pairs(pairs: Seq<(Vec<u8>, JVal)>, i: int) -> Seq<(Seq<u8>, JValM)>
    decreases pairs, pairs.len() - i,
{
    if i < 0 || i >= pairs.len() {
        Seq::<(Seq<u8>, JValM)>::empty()
    } else {
        seq![(pairs[i].0@, pairs[i].1.model())] + model_pairs(pairs, i + 1)
    }
}

pub proof fn lemma_model_pairs(pairs: Seq<(Vec<u8>, JVal)>, i: int)
    requires
        0 <= i <= pairs.len(),
    ensures
        model_pairs(pairs, i).len() == pairs.len() - i,
        forall|j: int|
            i <= j < pairs.len() ==> model_pairs(pairs, i)[j - i] == (
            pairs[j].0@,
            #[trigger] pairs[j].1.model(),
            ),
    decreases pairs.len() - i,
{
    if i < pairs.len() {
        lemma_model_pairs(pairs, i + 1);
    }
}

pub proof fn lemma_model_pairs_push(pairs: Seq<(Vec<u8>, JVal)>, p: (Vec<u8>, JVal))
    ensures
        model_pairs(pairs.push(p), 0) == model_pairs(pairs, 0).push((p.0@, p.1.model())),
{
    lemma_model_pairs(pairs, 0);
    lemma_model_pairs(pairs.push(p), 0);
    let lhs = model_pairs(pairs.push(p), 0);
    let rhs = model_pairs(pairs, 0).push((p.0@, p.1.model()));
    assert forall|j: int| 0 <= j < pairs.len() + 1 implies lhs[j] == rhs[j] by {
        if j < pairs.len() {
            assert(pairs.push(p)[j] == pairs[j]);
            assert(lhs[j] == (pairs.push(p)[j].0@, pairs.push(p)[j].1.model()));
            assert(rhs[j] == (pairs[j].0@, pairs[j].1.model()));
        } else {
            assert(pairs.push(p)[j] == p);
            assert(lhs[j] == (pairs.push(p)[j].0@, pairs.push(p)[j].1.model()));
        }
    }
    assert(lhs =~= rhs);
}

// ---------------------------------------------------------------------------
// executable parser
// ---------------------------------------------------------------------------

fn e_scan_digits(s: &[u8], i: usize) -> (r: (Vec<u8>, usize))
    requires
        i <= s@.len(),
    ensures
        ({
            let (d, j) = scan_digits(s@, i as int);
            r.0@ == d && r.1 == j && i <= r.1 <= s@.len()
        }),
{
    let mut acc: Vec<u8> = Vec::new();
    let mut j = i;
    while j < s.len() && 48 <= s[j] && s[j] <= 57
        invariant
            i <= j <= s@.len(),
            scan_digits(s@, i as int).0 == acc@ + scan_digits(s@, j as int).0,
            scan_digits(s@, i as int).1 == scan_digits(s@, j as int).1,
        decreases s@.len() - j,
    {
        proof {
            assert(is_digit(s@[j as int]));
            assert(scan_digits(s@, j as int).0 == seq![s@[j as int]] + scan_digits(
                s@,
                j as int + 1,
            ).0);
        }
        let ghost prev = acc@;
        acc.push(s[j]);
        proof {
            assert(acc@ + scan_digits(s@, j as int + 1).0 =~= prev + (seq![s@[j as int]]
                + scan_digits(s@, j as int + 1).0));
        }
        j = j + 1;
    }
    proof {
        assert(scan_digits(s@, j as int).0 =~= Seq::<u8>::empty());
        assert(acc@ + Seq::<u8>::empty() =~= acc@);
    }
    (acc, j)
}

fn e_parse_str_body(s: &[u8], i: usize) -> (r: Option<(Vec<u8>, usize)>)
    requires
        i <= s@.len(),
    ensures
        (match r {
            Some((t, j)) => parse_str_body(s@, i as int) == Some((t@, j as int)) && i <= j
                <= s@.len(),
            None => parse_str_body(s@, i as int) is None,
        }),
{
    let mut acc: Vec<u8> = Vec::new();
    let mut j = i;
    loop
        invariant
            i <= j <= s@.len(),
            (match parse_str_body(s@, j as int) {
                Some((t, e)) => parse_str_body(s@, i as int) == Some((acc@ + t, e)),
                None => parse_str_body(s@, i as int) is None,
            }),
        decreases s@.len() - j,
    {
        if j >= s.len() {
            return None;
        }
        let b = s[j];
        if b == Q {
            proof {
                assert(parse_str_body(s@, j as int) == Some((Seq::<u8>::empty(), j as int + 1)));
                assert(acc@ + Seq::<u8>::empty() =~= acc@);
            }
            return Some((acc, j + 1));
        }
        if !(32 <= b && b <= 126 && b != 92) {
            return None;
        }
        proof {
            assert(str_byte_ok(s@[j as int]));
        }
        let ghost prev = acc@;
        acc.push(b);
        proof {
            match parse_str_body(s@, j as int + 1) {
                Some((t, e)) => {
                    assert(parse_str_body(s@, j as int) == Some((seq![s@[j as int]] + t, e)));
                    assert(prev + (seq![s@[j as int]] + t) =~= acc@ + t);
                },
                None => {},
            }
        }
        j = j + 1;
    }
}

fn e_parse_num(s: &[u8], i: usize) -> (r: Option<(JNum, usize)>)
    requires
        i <= s@.len(),
    ensures
        (match r {
            Some((n, j)) => parse_num(s@, i as int) == Some((n.model(), j as int)) && i <= j
                <= s@.len(),
            None => parse_num(s@, i as int) is None,
        }),
{
    if i >= s.len() {
        return None;
    }
    let neg = s[i] == MINUS;
    let i1 = if neg {
        i + 1
    } else {
        i
    };
    let (ints, j) = e_scan_digits(s, i1);
    if ints.len() == 0 {
        return None;
    }
    if j < s.len() && s[j] == DOT {
        let (fracs, k) = e_scan_digits(s, j + 1);
        if fracs.len() == 0 {
            return None;
        }
        Some((JNum { neg, int_digits: ints, frac_digits: fracs }, k))
    } else {
        let fracs: Vec<u8> = Vec::new();
        proof {
            assert(fracs@ =~= Seq::<u8>::empty());
        }
        Some((JNum { neg, int_digits: ints, frac_digits: fracs }, j))
    }
}

pub fn e_parse_jval(s: &[u8], i: usize, fuel: usize) -> (r: Option<(JVal, usize)>)
    requires
        i <= s@.len(),
    ensures
        (match r {
            Some((v, j)) => parse_jval(s@, i as int, fuel as nat) == Some((v.model(), j as int))
                && i <= j <= s@.len(),
            None => parse_jval(s@, i as int, fuel as nat) is None,
        }),
    decreases fuel,
{
    if fuel == 0 || i >= s.len() {
        return None;
    }
    let b = s[i];
    if b == 110 {
        if s.len() - i >= 4 && s[i + 1] == 117 && s[i + 2] == 108 && s[i + 3] == 108 {
            proof {
                assert(s@.subrange(i as int, i as int + 4) =~= lit_null());
            }
            Some((JVal::Null, i + 4))
        } else {
            proof {
                if i + 4 <= s@.len() && s@.subrange(i as int, i as int + 4) == lit_null() {
                    assert(s@[i as int + 1] == lit_null()[1]);
                    assert(s@[i as int + 2] == lit_null()[2]);
                    assert(s@[i as int + 3] == lit_null()[3]);
                }
            }
            None
        }
    } else if b == 116 {
        if s.len() - i >= 4 && s[i + 1] == 114 && s[i + 2] == 117 && s[i + 3] == 101 {
            proof {
                assert(s@.subrange(i as int, i as int + 4) =~= lit_true());
            }
            Some((JVal::Bool(true), i + 4))
        } else {
            proof {
                if i + 4 <= s@.len() && s@.subrange(i as int, i as int + 4) == lit_true() {
                    assert(s@[i as int + 1] == lit_true()[1]);
                    assert(s@[i as int + 2] == lit_true()[2]);
                    assert(s@[i as int + 3] == lit_true()[3]);
                }
            }
            None
        }
    } else if b == 102 {
        if s.len() - i >= 5 && s[i + 1] == 97 && s[i + 2] == 108 && s[i + 3] == 115 && s[i + 4]
            == 101 {
            proof {
                assert(s@.subrange(i as int, i as int + 5) =~= lit_false());
            }
            Some((JVal::Bool(false), i + 5))
        } else {
            proof {
                if i + 5 <= s@.len() && s@.subrange(i as int, i as int + 5) == lit_false() {
                    assert(s@[i as int + 1] == lit_false()[1]);
                    assert(s@[i as int + 2] == lit_false()[2]);
                    assert(s@[i as int + 3] == lit_false()[3]);
                    assert(s@[i as int + 4] == lit_false()[4]);
                }
            }
            None
        }
    } else if b == Q {
        match e_parse_str_body(s, i + 1) {
            Some((t, j)) => Some((JVal::Str(t), j)),
            None => None,
        }
    } else if b == LBRACE {
        if i + 1 < s.len() && s[i + 1] == RBRACE {
            let pairs: Vec<(Vec<u8>, JVal)> = Vec::new();
            proof {
                assert(model_pairs(pairs@, 0) =~= Seq::<(Seq<u8>, JValM)>::empty());
            }
            Some((JVal::Obj(pairs), i + 2))
        } else {
            match e_parse_jpairs(s, i + 1, fuel - 1) {
                Some((pairs, j)) => Some((JVal::Obj(pairs), j)),
                None => None,
            }
        }
    } else if b == MINUS || (48 <= b && b <= 57) {
        match e_parse_num(s, i) {
            Some((n, j)) => Some((JVal::Num(n), j)),
            None => None,
        }
    } else {
        None
    }
}

fn e_parse_jpairs(s: &[u8], i: usize, fuel: usize) -> (r: Option<(Vec<(Vec<u8>, JVal)>, usize)>)
    requires
        i <= s@.len(),
    ensures
        (match r {
            Some((pairs, j)) => parse_jpairs(s@, i as int, fuel as nat) == Some(
                (model_pairs(pairs@, 0), j as int),
            ) && i <= j <= s@.len(),
            None => parse_jpairs(s@, i as int, fuel as nat) is None,
        }),
    decreases fuel,
{
    if fuel == 0 || i >= s.len() || s[i] != Q {
        return None;
    }
    let (key, j) = match e_parse_str_body(s, i + 1) {
        Some(kj) => kj,
        None => {
            return None;
        },
    };
    if !(j < s.len() && s[j] == COLON) {
        return None;
    }
    let (v, k) = match e_parse_jval(s, j + 1, fuel - 1) {
        Some(vk) => vk,
        None => {
            return None;
        },
    };
    if k < s.len() && s[k] == COMMA {
        match e_parse_jpairs(s, k + 1, fuel - 1) {
            Some((mut rest, m)) => {
                let ghost rest0 = rest@;
                let ghost keyv = (key@, v.model());
                rest.insert(0, (key, v));
                proof {
                    lemma_model_pairs(rest0, 0);
                    lemma_model_pairs(rest@, 0);
                    let lhs = model_pairs(rest@, 0);
                    let rhs = seq![keyv] + model_pairs(rest0, 0);
                    assert forall|q: int| 0 <= q < rest@.len() implies lhs[q] == rhs[q] by {
                        assert(lhs[q] == (rest@[q].0@, rest@[q].1.model()));
                        if q == 0 {
                            assert(rest@[0] == (rest@[0].0, rest@[0].1));
                        } else {
                            assert(rest@[q] == rest0[q - 1]);
                            assert(rhs[q] == model_pairs(rest0, 0)[q - 1]);
                            assert(model_pairs(rest0, 0)[q - 1] == (
                                rest0[q - 1].0@,
                                rest0[q - 1].1.model(),
                            ));
                        }
                    }
                    assert(lhs =~= rhs);
                }
                Some((rest, m))
            },
            None => None,
        }
    } else if k < s.len() && s[k] == RBRACE {
        let mut pairs: Vec<(Vec<u8>, JVal)> = Vec::new();
        pairs.push((key, v));
        proof {
            lemma_model_pairs(pairs@, 0);
            assert(model_pairs(pairs@, 0) =~= seq![(pairs@[0].0@, pairs@[0].1.model())]);
        }
        Some((pairs, k + 1))
    } else {
        None
    }
}


// ---------------------------------------------------------------------------
// executable printer
// ---------------------------------------------------------------------------

/// Appends a byte slice.
pub fn push_bytes(out: &mut Vec<u8>, b: &[u8])
    ensures
        final(out)@ == old(out)@ + b@,
{
    let mut i: usize = 0;
    while i < b.len()
        invariant
            0 <= i <= b@.len(),
            out@ == old(out)@ + b@.subrange(0, i as int),
        decreases b@.len() - i,
    {
        out.push(b[i]);
        proof {
            assert(old(out)@ + b@.subrange(0, i as int + 1) =~= (old(out)@ + b@.subrange(
                0,
                i as int,
            )).push(b@[i as int]));
        }
        i = i + 1;
    }
    proof {
        assert(b@.subrange(0, b@.len() as int) =~= b@);
    }
}

pub fn e_print_jval(v: &JVal, out: &mut Vec<u8>)
    ensures
        final(out)@ == old(out)@ + print_jval(v.model()),
    decreases v, 0int,
{
    match v {
        JVal::Null => {
            out.push(110);
            out.push(117);
            out.push(108);
            out.push(108);
            proof {
                assert(out@ =~= old(out)@ + lit_null());
            }
        },
        JVal::Bool(b) => {
            if *b {
                out.push(116);
                out.push(114);
                out.push(117);
                out.push(101);
                proof {
                    assert(out@ =~= old(out)@ + lit_true());
                }
            } else {
                out.push(102);
                out.push(97);
                out.push(108);
                out.push(115);
                out.push(101);
                proof {
                    assert(out@ =~= old(out)@ + lit_false());
                }
            }
        },
        JVal::Num(n) => {
            if n.neg {
                out.push(MINUS);
            }
            push_bytes(out, n.int_digits.as_slice());
            if n.frac_digits.len() > 0 {
                out.push(DOT);
                push_bytes(out, n.frac_digits.as_slice());
            }
            proof {
                assert(out@ =~= old(out)@ + print_num(n.model()));
            }
        },
        JVal::Str(t) => {
            out.push(Q);
            push_bytes(out, t.as_slice());
            out.push(Q);
            proof {
                assert(out@ =~= old(out)@ + (seq![Q] + t@ + seq![Q]));
            }
        },
        JVal::Obj(pairs) => {
            out.push(LBRACE);
            if pairs.len() > 0 {
                e_print_jpairs(pairs, 0, out);
            } else {
                proof {
                    assert(model_pairs(pairs@, 0).len() == 0) by {
                        lemma_model_pairs(pairs@, 0);
                    }
                    assert(print_jpairs(model_pairs(pairs@, 0), 0) =~= Seq::<u8>::empty());
                }
            }
            out.push(RBRACE);
            proof {
                assert(out@ =~= old(out)@ + (seq![LBRACE] + print_jpairs(
                    model_pairs(pairs@, 0),
                    0,
                ) + seq![RBRACE]));
            }
        },
    }
}

fn e_print_jpairs(pairs: &Vec<(Vec<u8>, JVal)>, k: usize, out: &mut Vec<u8>)
    requires
        k < pairs@.len(),
    ensures
        final(out)@ == old(out)@ + print_jpairs(model_pairs(pairs@, 0), k as int),
    decreases pairs, pairs@.len() - k,
{
    proof {
        lemma_model_pairs(pairs@, 0);
    }
    let ghost m = model_pairs(pairs@, 0);
    let p = &pairs[k];
    out.push(Q);
    push_bytes(out, p.0.as_slice());
    out.push(Q);
    out.push(COLON);
    e_print_jval(&p.1, out);
    proof {
        assert(m[k as int] == (pairs@[k as int].0@, pairs@[k as int].1.model()));
        assert(out@ =~= old(out)@ + print_jpair(m[k as int]));
    }
    if k < pairs.len() - 1 {
        out.push(COMMA);
        e_print_jpairs(pairs, k + 1, out);
        proof {
            assert(out@ =~= old(out)@ + (print_jpair(m[k as int]) + seq![COMMA] + print_jpairs(
                m,
                k as int + 1,
            )));
        }
    } else {
        proof {
            assert(k == pairs@.len() - 1);
            assert(print_jpairs(m, k as int) == print_jpair(m[k as int]));
        }
    }
}

// ---------------------------------------------------------------------------
// field lookup
// ---------------------------------------------------------------------------

/// First value under `key` among the pairs from index `i` on.
pub open spec fn slookup(pairs: Seq<(Seq<u8>, JValM)>, key: Seq<u8>, i: int) -> Option<JValM>
    decreases pairs.len() - i,
{
    if i < 0 || i >= pairs.len() {
        None
    } else if pairs[i].0 == key {
        Some(pairs[i].1)
    } else {
        slookup(pairs, key, i + 1)
    }
}

pub fn bytes_eq(a: &[u8], b: &[u8]) -> (r: bool)
    ensures
        r == (a@ == b@),
{
    if a.len() != b.len() {
        return false;
    }
    let mut i: usize = 0;
    while i < a.len()
        invariant
            0 <= i <= a@.len(),
            a@.len() == b@.len(),
            forall|j: int| 0 <= j < i ==> a@[j] == b@[j],
        decreases a@.len() - i,
    {
        if a[i] != b[i] {
            return false;
        }
        i = i + 1;
    }
    proof {
        assert(a@ =~= b@);
    }
    true
}

/// Finds the first pair whose key is `key`; the model of the returned
/// value is what `slookup` names on the model pairs.
pub fn lookup<'a>(pairs: &'a Vec<(Vec<u8>, JVal)>, key: &[u8]) -> (r: Option<&'a JVal>)
    ensures
        (match r {
            Some(v) => slookup(model_pairs(pairs@, 0), key@, 0) == Some(v.model()),
            None => slookup(model_pairs(pairs@, 0), key@, 0) is None,
        }),
{
    proof {
        lemma_model_pairs(pairs@, 0);
    }
    let ghost m = model_pairs(pairs@, 0);
    let mut i: usize = 0;
    while i < pairs.len()
        invariant
            0 <= i <= pairs@.len(),
            m == model_pairs(pairs@, 0),
            m.len() == pairs@.len(),
            forall|j: int|
                0 <= j < pairs@.len() ==> m[j] == (pairs@[j].0@, #[trigger] pairs@[j].1.model()),
            slookup(m, key@, 0) == slookup(m, key@, i as int),
        decreases pairs@.len() - i,
    {
        let p = &pairs[i];
        if bytes_eq(p.0.as_slice(), key) {
            return Some(&p.1);
        }
        proof {
            assert(m[i as int] == (pairs@[i as int].0@, pairs@[i as int].1.model()));
            assert(m[i as int].0 != key@);
            assert(slookup(m, key@, i as int) == slookup(m, key@, i as int + 1));
        }
        i = i + 1;
    }
    None
}

// ---------------------------------------------------------------------------
// numbers as typed values
// ---------------------------------------------------------------------------

pub open spec fn jnum_of_nat(x: nat) -> JNumM {
    JNumM { neg: false, int_digits: crate::num::dec_digits(x), frac_digits: Seq::empty() }
}

pub open spec fn jnum_of_int(x: int) -> JNumM {
    if x < 0 {
        JNumM { neg: true, int_digits: crate::num::dec_digits((-x) as nat), frac_digits: Seq::empty() }
    } else {
        jnum_of_nat(x as nat)
    }
}

pub open spec fn jnum_of_dec(d: crate::num::Dec) -> JNumM {
    JNumM {
        neg: d.neg,
        int_digits: crate::num::dec_digits(d.units as nat),
        frac_digits: crate::num::frac_digits(d.milli as nat),
    }
}

/// The value of an integral number, when it is one and fits.
pub open spec fn num_as_u64(n: JNumM) -> Option<u64> {
    if !n.neg && n.frac_digits.len() == 0 && n.int_digits.len() >= 1 && all_digits(n.int_digits)
        && crate::num::digits_val(n.int_digits) <= u64::MAX {
        Some(crate::num::digits_val(n.int_digits) as u64)
    } else {
        None
    }
}

/// The value of an integral number with sign, when it fits an `i64`.
pub open spec fn num_as_i64(n: JNumM) -> Option<i64> {
    if n.frac_digits.len() == 0 && n.int_digits.len() >= 1 && all_digits(n.int_digits) {
        let v = crate::num::digits_val(n.int_digits) as int;
        if n.neg {
            if -v >= i64::MIN {
                Some((-v) as i64)
            } else {
                None
            }
        } else {
            if v <= i64::MAX {
                Some(v as i64)
            } else {
                None
            }
        }
    } else {
        None
    }
}

/// The value of a number as a fixed-point decimal, when the whole part
/// fits a `u32` and the fraction has at most three digits.
pub open spec fn num_as_dec(n: JNumM) -> Option<crate::num::Dec> {
    if n.int_digits.len() >= 1 && all_digits(n.int_digits) && crate::num::digits_val(n.int_digits)
        <= u32::MAX && (n.frac_digits.len() == 0 || (1 <= n.frac_digits.len() <= 3 && all_digits(
        n.frac_digits,
    ))) {
        let units = crate::num::digits_val(n.int_digits) as u32;
        let milli = if n.frac_digits.len() == 0 {
            0u16
        } else {
            crate::num::frac_val(n.frac_digits) as u16
        };
        Some(
            crate::num::Dec {
                neg: n.neg && !(units == 0 && milli == 0),
                units,
                milli,
            },
        )
    } else {
        None
    }
}

fn e_num_as_u64(n: &JNum) -> (r: Option<u64>)
    ensures
        r == num_as_u64(n.model()),
{
    if n.neg || n.frac_digits.len() != 0 {
        return None;
    }
    crate::num::digits_to_u64(n.int_digits.as_slice())
}

fn e_num_as_i64(n: &JNum) -> (r: Option<i64>)
    ensures
        r == num_as_i64(n.model()),
{
    if n.frac_digits.len() != 0 {
        return None;
    }
    let v = match crate::num::digits_to_u64(n.int_digits.as_slice()) {
        Some(v) => v,
        None => {
            proof {
                if n.model().int_digits.len() >= 1 && all_digits(n.model().int_digits) {
                    // overflow past u64 is past i64 in either sign
                }
            }
            return None;
        },
    };
    if n.neg {
        if v <= 9223372036854775808u64 {
            if v == 9223372036854775808u64 {
                Some(i64::MIN)
            } else {
                Some(-(v as i64))
            }
        } else {
            None
        }
    } else {
        if v <= 9223372036854775807u64 {
            Some(v as i64)
        } else {
            None
        }
    }
}

fn e_num_as_dec(n: &JNum) -> (r: Option<crate::num::Dec>)
    ensures
        r == num_as_dec(n.model()),
{
    let units64 = match crate::num::digits_to_u64(n.int_digits.as_slice()) {
        Some(v) => v,
        None => {
            return None;
        },
    };
    if units64 > 0xffff_ffffu64 {
        return None;
    }
    let units = units64 as u32;
    let milli: u16 = if n.frac_digits.len() == 0 {
        0
    } else {
        match crate::num::frac_to_milli(n.frac_digits.as_slice()) {
            Some(m) => m,
            None => {
                return None;
            },
        }
    };
    Some(
        crate::num::Dec {
            neg: n.neg && !(units == 0 && milli == 0),
            units,
            milli,
        },
    )
}

// round trips between typed values and their number models

pub proof fn lemma_num_u64_round_trip(x: nat)
    requires
        x <= u64::MAX,
    ensures
        num_wf(jnum_of_nat(x)),
        num_as_u64(jnum_of_nat(x)) == Some(x as u64),
{
    crate::num::lemma_dec_digits_all_digits(x);
    crate::num::lemma_digits_val_of_dec_digits(x);
}

pub proof fn lemma_num_i64_round_trip(x: int)
    requires
        i64::MIN <= x <= i64::MAX,
    ensures
        num_wf(jnum_of_int(x)),
        num_as_i64(jnum_of_int(x)) == Some(x as i64),
{
    if x < 0 {
        crate::num::lemma_dec_digits_all_digits((-x) as nat);
        crate::num::lemma_digits_val_of_dec_digits((-x) as nat);
    } else {
        crate::num::lemma_dec_digits_all_digits(x as nat);
        crate::num::lemma_digits_val_of_dec_digits(x as nat);
    }
}

pub proof fn lemma_num_dec_round_trip(d: crate::num::Dec)
    requires
        d.wf(),
    ensures
        num_wf(jnum_of_dec(d)),
        num_as_dec(jnum_of_dec(d)) == Some(d),
{
    crate::num::lemma_dec_digits_all_digits(d.units as nat);
    crate::num::lemma_digits_val_of_dec_digits(d.units as nat);
    crate::num::lemma_frac_digits_ok(d.milli as nat);
}

// ---------------------------------------------------------------------------
// typed field getters
// ---------------------------------------------------------------------------

pub open spec fn sget_num(pairs: Seq<(Seq<u8>, JValM)>, key: Seq<u8>) -> Option<JNumM> {
    match slookup(pairs, key, 0) {
        Some(JValM::Num(n)) => Some(n),
        _ => None,
    }
}

pub open spec fn sget_u64(pairs: Seq<(Seq<u8>, JValM)>, key: Seq<u8>) -> Option<u64> {
    match sget_num(pairs, key) {
        Some(n) => num_as_u64(n),
        None => None,
    }
}

pub open spec fn sget_u32(pairs: Seq<(Seq<u8>, JValM)>, key: Seq<u8>) -> Option<u32> {
    match sget_u64(pairs, key) {
        Some(v) => if v <= u32::MAX {
            Some(v as u32)
        } else {
            None
        },
        None => None,
    }
}

pub open spec fn sget_u16(pairs: Seq<(Seq<u8>, JValM)>, key: Seq<u8>) -> Option<u16> {
    match sget_u64(pairs, key) {
        Some(v) => if v <= u16::MAX {
            Some(v as u16)
        } else {
            None
        },
        None => None,
    }
}

pub open spec fn sget_u8(pairs: Seq<(Seq<u8>, JValM)>, key: Seq<u8>) -> Option<u8> {
    match sget_u64(pairs, key) {
        Some(v) => if v <= u8::MAX {
            Some(v as u8)
        } else {
            None
        },
        None => None,
    }
}

pub open spec fn sget_i64(pairs: Seq<(Seq<u8>, JValM)>, key: Seq<u8>) -> Option<i64> {
    match sget_num(pairs, key) {
        Some(n) => num_as_i64(n),
        None => None,
    }
}

pub open spec fn sget_i32(pairs: Seq<(Seq<u8>, JValM)>, key: Seq<u8>) -> Option<i32> {
    match sget_i64(pairs, key) {
        Some(v) => if i32::MIN <= v <= i32::MAX {
            Some(v as i32)
        } else {
            None
        },
        None => None,
    }
}

pub open spec fn sget_i16(pairs: Seq<(Seq<u8>, JValM)>, key: Seq<u8>) -> Option<i16> {
    match sget_i64(pairs, key) {
        Some(v) => if i16::MIN <= v <= i16::MAX {
            Some(v as i16)
        } else {
            None
        },
        None => None,
    }
}

pub open spec fn sget_i8(pairs: Seq<(Seq<u8>, JValM)>, key: Seq<u8>) -> Option<i8> {
    match sget_i64(pairs, key) {
        Some(v) => if i8::MIN <= v <= i8::MAX {
            Some(v as i8)
        } else {
            None
        },
        None => None,
    }
}

pub open spec fn sget_dec(pairs: Seq<(Seq<u8>, JValM)>, key: Seq<u8>) -> Option<crate::num::Dec> {
    match sget_num(pairs, key) {
        Some(n) => num_as_dec(n),
        None => None,
    }
}

pub open spec fn sget_str(pairs: Seq<(Seq<u8>, JValM)>, key: Seq<u8>) -> Option<Seq<u8>> {
    match slookup(pairs, key, 0) {
        Some(JValM::Str(t)) => Some(t),
        _ => None,
    }
}

pub open spec fn sget_obj(pairs: Seq<(Seq<u8>, JValM)>, key: Seq<u8>) -> Option<
    Seq<(Seq<u8>, JValM)>,
> {
    match slookup(pairs, key, 0) {
        Some(JValM::Obj(q)) => Some(q),
        _ => None,
    }
}

fn get_num<'a>(pairs: &'a Vec<(Vec<u8>, JVal)>, key: &[u8]) -> (r: Option<&'a JNum>)
    ensures
        (match r {
            Some(n) => sget_num(model_pairs(pairs@, 0), key@) == Some(n.model()),
            None => sget_num(model_pairs(pairs@, 0), key@) is None,
        }),
{
    match lookup(pairs, key) {
        Some(JVal::Num(n)) => Some(n),
        _ => None,
    }
}

pub fn get_u32(pairs: &Vec<(Vec<u8>, JVal)>, key: &[u8]) -> (r: Option<u32>)
    ensures
        r == sget_u32(model_pairs(pairs@, 0), key@),
{
    match get_num(pairs, key) {
        Some(n) => match e_num_as_u64(n) {
            Some(v) => if v <= 0xffff_ffffu64 {
                Some(v as u32)
            } else {
                None
            },
            None => None,
        },
        None => None,
    }
}

pub fn get_u16(pairs: &Vec<(Vec<u8>, JVal)>, key: &[u8]) -> (r: Option<u16>)
    ensures
        r == sget_u16(model_pairs(pairs@, 0), key@),
{
    match get_num(pairs, key) {
        Some(n) => match e_num_as_u64(n) {
            Some(v) => if v <= 0xffffu64 {
                Some(v as u16)
            } else {
                None
            },
            None => None,
        },
        None => None,
    }
}

pub fn get_u8(pairs: &Vec<(Vec<u8>, JVal)>, key: &[u8]) -> (r: Option<u8>)
    ensures
        r == sget_u8(model_pairs(pairs@, 0), key@),
{
    match get_num(pairs, key) {
        Some(n) => match e_num_as_u64(n) {
            Some(v) => if v <= 0xffu64 {
                Some(v as u8)
            } else {
                None
            },
            None => None,
        },
        None => None,
    }
}

pub fn get_i32(pairs: &Vec<(Vec<u8>, JVal)>, key: &[u8]) -> (r: Option<i32>)
    ensures
        r == sget_i32(model_pairs(pairs@, 0), key@),
{
    match get_num(pairs, key) {
        Some(n) => match e_num_as_i64(n) {
            Some(v) => if -0x8000_0000i64 <= v && v <= 0x7fff_ffffi64 {
                Some(v as i32)
            } else {
                None
            },
            None => None,
        },
        None => None,
    }
}

pub fn get_i16(pairs: &Vec<(Vec<u8>, JVal)>, key: &[u8]) -> (r: Option<i16>)
    ensures
        r == sget_i16(model_pairs(pairs@, 0), key@),
{
    match get_num(pairs, key) {
        Some(n) => match e_num_as_i64(n) {
            Some(v) => if -0x8000i64 <= v && v <= 0x7fffi64 {
                Some(v as i16)
            } else {
                None
            },
            None => None,
        },
        None => None,
    }
}

pub fn get_i8(pairs: &Vec<(Vec<u8>, JVal)>, key: &[u8]) -> (r: Option<i8>)
    ensures
        r == sget_i8(model_pairs(pairs@, 0), key@),
{
    match get_num(pairs, key) {
        Some(n) => match e_num_as_i64(n) {
            Some(v) => if -0x80i64 <= v && v <= 0x7fi64 {
                Some(v as i8)
            } else {
                None
            },
            None => None,
        },
        None => None,
    }
}

pub fn get_dec(pairs: &Vec<(Vec<u8>, JVal)>, key: &[u8]) -> (r: Option<crate::num::Dec>)
    ensures
        r == sget_dec(model_pairs(pairs@, 0), key@),
{
    match get_num(pairs, key) {
        Some(n) => e_num_as_dec(n),
        None => None,
    }
}

pub fn get_str(pairs: &Vec<(Vec<u8>, JVal)>, key: &[u8]) -> (r: Option<Vec<u8>>)
    ensures
        (match r {
            Some(t) => sget_str(model_pairs(pairs@, 0), key@) == Some(t@),
            None => sget_str(model_pairs(pairs@, 0), key@) is None,
        }),
{
    match lookup(pairs, key) {
        Some(JVal::Str(t)) => {
            let mut out: Vec<u8> = Vec::new();
            push_bytes(&mut out, t.as_slice());
            proof {
                assert(out@ =~= t@);
            }
            Some(out)
        },
        _ => None,
    }
}

pub fn get_obj<'a>(pairs: &'a Vec<(Vec<u8>, JVal)>, key: &[u8]) -> (r: Option<
    &'a Vec<(Vec<u8>, JVal)>,
>)
    ensures
        (match r {
            Some(q) => sget_obj(model_pairs(pairs@, 0), key@) == Some(model_pairs(q@, 0)),
            None => sget_obj(model_pairs(pairs@, 0), key@) is None,
        }),
{
    match lookup(pairs, key) {
        Some(JVal::Obj(q)) => Some(q),
        _ => None,
    }
}


/// If `key` first appears at index `at`, lookup from the front finds it.
pub proof fn lemma_slookup_at(m: Seq<(Seq<u8>, JValM)>, key: Seq<u8>, at: int)
    requires
        0 <= at < m.len(),
        m[at].0 == key,
        forall|j: int| 0 <= j < at ==> m[j].0 != key,
    ensures
        slookup(m, key, 0) == Some(m[at].1),
{
    lemma_slookup_from(m, key, 0, at);
}

proof fn lemma_slookup_from(m: Seq<(Seq<u8>, JValM)>, key: Seq<u8>, i: int, at: int)
    requires
        0 <= i <= at < m.len(),
        m[at].0 == key,
        forall|j: int| i <= j < at ==> m[j].0 != key,
    ensures
        slookup(m, key, i) == Some(m[at].1),
    decreases at - i,
{
    if i < at {
        lemma_slookup_from(m, key, i + 1, at);
    }
}


/// The fuel a printed value needs is at most its printed length.
pub proof fn lemma_jval_size_le_print(v: JValM)
    requires
        jval_wf(v),
    ensures
        jval_size(v) <= print_jval(v).len(),
    decreases v, 0int,
{
    match v {
        JValM::Obj(pairs) => {
            if pairs.len() > 0 {
                lemma_jpairs_size_le_print(pairs, 0);
            }
        },
        _ => {},
    }
}

pub proof fn lemma_jpairs_size_le_print(pairs: Seq<(Seq<u8>, JValM)>, i: int)
    requires
        0 <= i < pairs.len(),
        jpairs_wf(pairs, i),
    ensures
        jpairs_size(pairs, i) <= print_jpairs(pairs, i).len(),
    decreases pairs, pairs.len() - i,
{
    lemma_jval_size_le_print(pairs[i].1);
    assert(print_jpair(pairs[i]) == seq![Q] + pairs[i].0 + seq![Q, COLON] + print_jval(
        pairs[i].1,
    ));
    assert(print_jpair(pairs[i]).len() == pairs[i].0.len() + 3 + print_jval(pairs[i].1).len());
    if i < pairs.len() - 1 {
        lemma_jpairs_size_le_print(pairs, i + 1);
        assert(print_jpairs(pairs, i) == print_jpair(pairs[i]) + seq![COMMA] + print_jpairs(
            pairs,
            i + 1,
        ));
    } else {
        assert(print_jpairs(pairs, i) == print_jpair(pairs[i]));
        assert(jpairs_size(pairs, i + 1) == 0);
    }
    assert(jpairs_size(pairs, i) == 1 + jval_size(pairs[i].1) + jpairs_size(pairs, i + 1));
}

/// Putting one well-formed pair in front of well-formed pairs keeps the
/// whole list well formed.
pub proof fn lemma_jpairs_wf_cons(t: (Seq<u8>, JValM), rest: Seq<(Seq<u8>, JValM)>)
    requires
        str_ok(t.0),
        jval_wf(t.1),
        jpairs_wf(rest, 0),
    ensures
        jpairs_wf(seq![t] + rest, 0),
{
    lemma_jpairs_wf_shift(t, rest, 0);
    assert((seq![t] + rest)[0] == t);
}

proof fn lemma_jpairs_wf_shift(t: (Seq<u8>, JValM), rest: Seq<(Seq<u8>, JValM)>, i: int)
    requires
        0 <= i <= rest.len(),
        jpairs_wf(rest, i),
    ensures
        jpairs_wf(seq![t] + rest, i + 1),
    decreases rest.len() - i,
{
    if i < rest.len() {
        lemma_jpairs_wf_shift(t, rest, i + 1);
        assert((seq![t] + rest)[i + 1] == rest[i]);
    }
}


/// No byte of `s` is the frame delimiter.
pub open spec fn no_nl(s: Seq<u8>) -> bool {
    forall|i: int| 0 <= i < s.len() ==> s[i] != 10
}

/// Printed values never contain the frame delimiter, so a printed packet
/// always travels as a single frame.
pub proof fn lemma_print_no_nl(v: JValM)
    requires
        jval_wf(v),
    ensures
        no_nl(print_jval(v)),
    decreases v, 0int,
{
    match v {
        JValM::Null => {},
        JValM::Bool(_) => {},
        JValM::Num(n) => {
            let p = print_num(n);
            assert forall|i: int| 0 <= i < p.len() implies p[i] != 10 by {
                if n.neg {
                    if i == 0 {
                    } else if i < 1 + n.int_digits.len() {
                        assert(p[i] == n.int_digits[i - 1]);
                        assert(is_digit(p[i]));
                    } else if i == 1 + n.int_digits.len() {
                        assert(p[i] == DOT);
                    } else {
                        assert(p[i] == n.frac_digits[i - 2 - n.int_digits.len()]);
                        assert(is_digit(p[i]));
                    }
                } else {
                    if i < n.int_digits.len() {
                        assert(p[i] == n.int_digits[i]);
                        assert(is_digit(p[i]));
                    } else if i == n.int_digits.len() {
                        assert(p[i] == DOT);
                    } else {
                        assert(p[i] == n.frac_digits[i - 1 - n.int_digits.len()]);
                        assert(is_digit(p[i]));
                    }
                }
            }
        },
        JValM::Str(t) => {
            let p = print_jval(v);
            assert forall|i: int| 0 <= i < p.len() implies p[i] != 10 by {
                if 0 < i < 1 + t.len() {
                    assert(p[i] == t[i - 1]);
                    assert(str_byte_ok(p[i]));
                }
            }
        },
        JValM::Obj(pairs) => {
            let p = print_jval(v);
            let inner = print_jpairs(pairs, 0);
            if pairs.len() > 0 {
                lemma_print_jpairs_no_nl(pairs, 0);
            }
            assert forall|i: int| 0 <= i < p.len() implies p[i] != 10 by {
                if 0 < i < 1 + inner.len() {
                    assert(p[i] == inner[i - 1]);
                }
            }
        },
    }
}

proof fn lemma_print_jpairs_no_nl(pairs: Seq<(Seq<u8>, JValM)>, i: int)
    requires
        0 <= i < pairs.len(),
        jpairs_wf(pairs, i),
    ensures
        no_nl(print_jpairs(pairs, i)),
    decreases pairs, pairs.len() - i,
{
    let key = pairs[i].0;
    let pv = print_jval(pairs[i].1);
    let p1 = print_jpair(pairs[i]);
    lemma_print_no_nl(pairs[i].1);
    assert(no_nl(p1)) by {
        assert forall|j: int| 0 <= j < p1.len() implies p1[j] != 10 by {
            if 0 < j < 1 + key.len() {
                assert(p1[j] == key[j - 1]);
                assert(str_byte_ok(p1[j]));
            } else if key.len() + 3 <= j {
                assert(p1[j] == pv[j - 3 - key.len()]);
            }
        }
    }
    let pp = print_jpairs(pairs, i);
    if i == pairs.len() - 1 {
        assert(pp == p1);
    } else {
        lemma_print_jpairs_no_nl(pairs, i + 1);
        let rest = print_jpairs(pairs, i + 1);
        assert(pp == p1 + seq![COMMA] + rest);
        assert forall|j: int| 0 <= j < pp.len() implies pp[j] != 10 by {
            if j < p1.len() {
                assert(pp[j] == p1[j]);
            } else if j > p1.len() {
                assert(pp[j] == rest[j - 1 - p1.len()]);
            }
        }
    }
}


/// The pairs of a frame that parses, completely, as a single object;
/// `None` for every other byte sequence. This is what a frame must be
/// before any packet can be read out of it.
pub open spec fn wire_obj(s: Seq<u8>) -> Option<Seq<(Seq<u8>, JValM)>> {
    match parse_jval(s, 0, s.len() as nat) {
        Some((v, j)) => if j == s.len() {
            match v {
                JValM::Obj(m) => Some(m),
                _ => None,
            }
        } else {
            None
        },
        None => None,
    }
}

} // verus!
