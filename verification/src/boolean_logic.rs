//! Combinational gates: each one is built from `nand` alone and also has
//! a native-boolean-operator twin. Both carry the same exact contract, so
//! the two implementations agree on all inputs.
use vstd::prelude::*;

use crate::model::{val2, val3};

verus! {

/// A single logic value.
pub type Binary = bool;

/// A 16-bit bus, index 0 least significant.
pub type Word = [Binary; 16];

pub fn nand(a: Binary, b: Binary) -> (r: Binary)
    ensures
        r == !(a && b),
{
    !(a && b)
}

pub fn not(a: Binary) -> (r: Binary)
    ensures
        r == !a,
{
    nand(a, a)
}

pub fn and(a: Binary, b: Binary) -> (r: Binary)
    ensures
        r == (a && b),
{
    not(nand(a, b))
}

pub fn or(a: Binary, b: Binary) -> (r: Binary)
    ensures
        r == (a || b),
{
    not(and(not(a), not(b)))
}

pub fn xor(a: Binary, b: Binary) -> (r: Binary)
    ensures
        r == (a != b),
{
    or(and(a, not(b)), and(not(a), b))
}

pub fn mux(a: Binary, b: Binary, sel: Binary) -> (r: Binary)
    ensures
        r == (if sel {
            b
        } else {
            a
        }),
{
    and(or(a, sel), or(b, not(sel)))
}

pub fn mux_built_in(a: Binary, b: Binary, sel: Binary) -> (r: Binary)
    ensures
        r == (if sel {
            b
        } else {
            a
        }),
{
    (a || sel) && (b || !sel)
}

pub fn dmux(input: Binary, sel: Binary) -> (r: (Binary, Binary))
    ensures
        r.0 == (input && !sel),
        r.1 == (input && sel),
{
    (and(input, not(sel)), and(input, sel))
}

pub fn dmux_built_in(input: Binary, sel: Binary) -> (r: (Binary, Binary))
    ensures
        r.0 == (input && !sel),
        r.1 == (input && sel),
{
    (input && !sel, input && sel)
}

pub fn not16(input: Word) -> (r: Word)
    ensures
        forall|i: int| 0 <= i < 16 ==> r@[i] == !input@[i],
{
    let mut word: Word = [false;16];
    for i in 0..16
        invariant
            forall|j: int| 0 <= j < i ==> word@[j] == !input@[j],
    {
        word[i] = not(input[i]);
    }
    word
}

pub fn not16_built_in(input: Word) -> (r: Word)
    ensures
        forall|i: int| 0 <= i < 16 ==> r@[i] == !input@[i],
{
    let mut word: Word = [false;16];
    for i in 0..16
        invariant
            forall|j: int| 0 <= j < i ==> word@[j] == !input@[j],
    {
        word[i] = !input[i];
    }
    word
}

pub fn and16(a: Word, b: Word) -> (r: Word)
    ensures
        forall|i: int| 0 <= i < 16 ==> r@[i] == (a@[i] && b@[i]),
{
    let mut word: Word = [false;16];
    for i in 0..16
        invariant
            forall|j: int| 0 <= j < i ==> word@[j] == (a@[j] && b@[j]),
    {
        word[i] = and(a[i], b[i]);
    }
    word
}

pub fn and16_built_in(a: Word, b: Word) -> (r: Word)
    ensures
        forall|i: int| 0 <= i < 16 ==> r@[i] == (a@[i] && b@[i]),
{
    let mut word: Word = [false;16];
    for i in 0..16
        invariant
            forall|j: int| 0 <= j < i ==> word@[j] == (a@[j] && b@[j]),
    {
        word[i] = a[i] && b[i];
    }
    word
}

pub fn or16(a: Word, b: Word) -> (r: Word)
    ensures
        forall|i: int| 0 <= i < 16 ==> r@[i] == (a@[i] || b@[i]),
{
    let mut word: Word = [false;16];
    for i in 0..16
        invariant
            forall|j: int| 0 <= j < i ==> word@[j] == (a@[j] || b@[j]),
    {
        word[i] = or(a[i], b[i]);
    }
    word
}

pub fn mux16(a: Word, b: Word, sel: Binary) -> (r: Word)
    ensures
        r@ == (if sel {
            b@
        } else {
            a@
        }),
{
    let mut word: Word = [false;16];
    for i in 0..16
        invariant
            forall|j: int|
                0 <= j < i ==> word@[j] == (if sel {
                    b@[j]
                } else {
                    a@[j]
                }),
    {
        word[i] = mux(a[i], b[i], sel);
    }
    proof {
        if sel {
            assert(word@ =~= b@);
        } else {
            assert(word@ =~= a@);
        }
    }
    word
}

pub fn mux16_built_in(a: Word, b: Word, sel: Binary) -> (r: Word)
    ensures
        r@ == (if sel {
            b@
        } else {
            a@
        }),
{
    let mut word: Word = [false;16];
    for i in 0..16
        invariant
            forall|j: int|
                0 <= j < i ==> word@[j] == (if sel {
                    b@[j]
                } else {
                    a@[j]
                }),
    {
        word[i] = mux_built_in(a[i], b[i], sel);
    }
    proof {
        if sel {
            assert(word@ =~= b@);
        } else {
            assert(word@ =~= a@);
        }
    }
    word
}

pub fn or8way(input: [Binary; 8]) -> (r: Binary)
    ensures
        r == (input@[0] || input@[1] || input@[2] || input@[3] || input@[4] || input@[5]
            || input@[6] || input@[7]),
{
    or(
        or(or(input[0], input[1]), or(input[2], input[3])),
        or(or(input[4], input[5]), or(input[6], input[7])),
    )
}

pub fn or8way_built_in(input: [Binary; 8]) -> (r: Binary)
    ensures
        r == (input@[0] || input@[1] || input@[2] || input@[3] || input@[4] || input@[5]
            || input@[6] || input@[7]),
{
    input[0] || input[1] || input[2] || input[3] || input[4] || input[5] || input[6] || input[7]
}

/// What a balanced 4-way word select returns: the input picked by the
/// 2-bit select bus, low bit first.
pub open spec fn sel4way(
    a: Seq<bool>,
    b: Seq<bool>,
    c: Seq<bool>,
    d: Seq<bool>,
    sel: Seq<bool>,
) -> Seq<bool> {
    if val2(sel) == 0 {
        a
    } else if val2(sel) == 1 {
        b
    } else if val2(sel) == 2 {
        c
    } else {
        d
    }
}

/// What a balanced 8-way word select returns: the input picked by the
/// 3-bit select bus, low bit first.
pub open spec fn sel8way(
    a: Seq<bool>,
    b: Seq<bool>,
    c: Seq<bool>,
    d: Seq<bool>,
    e: Seq<bool>,
    f: Seq<bool>,
    g: Seq<bool>,
    h: Seq<bool>,
    sel: Seq<bool>,
) -> Seq<bool> {
    if val3(sel) == 0 {
        a
    } else if val3(sel) == 1 {
        b
    } else if val3(sel) == 2 {
        c
    } else if val3(sel) == 3 {
        d
    } else if val3(sel) == 4 {
        e
    } else if val3(sel) == 5 {
        f
    } else if val3(sel) == 6 {
        g
    } else {
        h
    }
}

pub fn mux4way16(a: Word, b: Word, c: Word, d: Word, sel: [Binary; 2]) -> (r: Word)
    ensures
        r@ == sel4way(a@, b@, c@, d@, sel@),
{
    mux16(mux16(a, b, sel[0]), mux16(c, d, sel[0]), sel[1])
}

pub fn mux4way16_built_in(a: Word, b: Word, c: Word, d: Word, sel: [Binary; 2]) -> (r: Word)
    ensures
        r@ == sel4way(a@, b@, c@, d@, sel@),
{
    mux16_built_in(mux16_built_in(a, b, sel[0]), mux16_built_in(c, d, sel[0]), sel[1])
}

pub fn mux8way16(
    a: Word,
    b: Word,
    c: Word,
    d: Word,
    e: Word,
    f: Word,
    g: Word,
    h: Word,
    sel: [Binary; 3],
) -> (r: Word)
    ensures
        r@ == sel8way(a@, b@, c@, d@, e@, f@, g@, h@, sel@),
{
    let sel1 = [sel[0], sel[1]];
    mux16(mux4way16(a, b, c, d, sel1), mux4way16(e, f, g, h, sel1), sel[2])
}

pub fn mux8way16_built_in(
    a: Word,
    b: Word,
    c: Word,
    d: Word,
    e: Word,
    f: Word,
    g: Word,
    h: Word,
    sel: [Binary; 3],
) -> (r: Word)
    ensures
        r@ == sel8way(a@, b@, c@, d@, e@, f@, g@, h@, sel@),
{
    let sel1 = [sel[0], sel[1]];
    mux16_built_in(
        mux4way16_built_in(a, b, c, d, sel1),
        mux4way16_built_in(e, f, g, h, sel1),
        sel[2],
    )
}

pub fn dmux4way(input: Binary, sel: [Binary; 2]) -> (r: (Binary, Binary, Binary, Binary))
    ensures
        r.0 == (input && val2(sel@) == 0),
        r.1 == (input && val2(sel@) == 1),
        r.2 == (input && val2(sel@) == 2),
        r.3 == (input && val2(sel@) == 3),
{
    let (w0, w1) = dmux(input, sel[0]);
    let (a, c) = dmux(w0, sel[1]);
    let (b, d) = dmux(w1, sel[1]);
    (a, b, c, d)
}

pub fn dmux4way_built_in(input: Binary, sel: [Binary; 2]) -> (r: (Binary, Binary, Binary, Binary))
    ensures
        r.0 == (input && val2(sel@) == 0),
        r.1 == (input && val2(sel@) == 1),
        r.2 == (input && val2(sel@) == 2),
        r.3 == (input && val2(sel@) == 3),
{
    let (w0, w1) = dmux_built_in(input, sel[0]);
    let (a, c) = dmux_built_in(w0, sel[1]);
    let (b, d) = dmux_built_in(w1, sel[1]);
    (a, b, c, d)
}

pub fn dmux8way(input: Binary, sel: [Binary; 3]) -> (r: (
    Binary,
    Binary,
    Binary,
    Binary,
    Binary,
    Binary,
    Binary,
    Binary,
))
    ensures
        r.0 == (input && val3(sel@) == 0),
        r.1 == (input && val3(sel@) == 1),
        r.2 == (input && val3(sel@) == 2),
        r.3 == (input && val3(sel@) == 3),
        r.4 == (input && val3(sel@) == 4),
        r.5 == (input && val3(sel@) == 5),
        r.6 == (input && val3(sel@) == 6),
        r.7 == (input && val3(sel@) == 7),
{
    let (w0, w1, w2, w3) = dmux4way(input, [sel[0], sel[1]]);
    let (a, e) = dmux(w0, sel[2]);
    let (b, f) = dmux(w1, sel[2]);
    let (c, g) = dmux(w2, sel[2]);
    let (d, h) = dmux(w3, sel[2]);
    (a, b, c, d, e, f, g, h)
}

pub fn dmux8way_built_in(input: Binary, sel: [Binary; 3]) -> (r: (
    Binary,
    Binary,
    Binary,
    Binary,
    Binary,
    Binary,
    Binary,
    Binary,
))
    ensures
        r.0 == (input && val3(sel@) == 0),
        r.1 == (input && val3(sel@) == 1),
        r.2 == (input && val3(sel@) == 2),
        r.3 == (input && val3(sel@) == 3),
        r.4 == (input && val3(sel@) == 4),
        r.5 == (input && val3(sel@) == 5),
        r.6 == (input && val3(sel@) == 6),
        r.7 == (input && val3(sel@) == 7),
{
    let (w0, w1, w2, w3) = dmux4way_built_in(input, [sel[0], sel[1]]);
    let (a, e) = dmux_built_in(w0, sel[2]);
    let (b, f) = dmux_built_in(w1, sel[2]);
    let (c, g) = dmux_built_in(w2, sel[2]);
    let (d, h) = dmux_built_in(w3, sel[2]);
    (a, b, c, d, e, f, g, h)
}

} // verus!
