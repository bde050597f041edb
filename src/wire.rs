//! Byte layouts of the ledger's canonical encoding, field by field.
use casper_types::bytesrepr::FromBytes;
use vstd::prelude::*;
use vstd::utf8::*;

verus! {

/// 256 raised to `n`.
pub open spec fn pow256(n: nat) -> nat
    decreases n,
{
    if n == 0 {
        1
    } else {
        256 * pow256((n - 1) as nat)
    }
}

/// The unsigned integer whose little-endian bytes are `b`.
pub open spec fn le_nat(b: Seq<u8>) -> nat
    decreases b.len(),
{
    if b.len() == 0 {
        0
    } else {
        b[0] as nat + 256 * le_nat(b.subrange(1, b.len() as int))
    }
}

pub proof fn lemma_le_nat_bound(b: Seq<u8>)
    ensures
        le_nat(b) < pow256(b.len()),
    decreases b.len(),
{
    if b.len() > 0 {
        let t = b.subrange(1, b.len() as int);
        lemma_le_nat_bound(t);
        assert(pow256(b.len()) == 256 * pow256(t.len()));
        let x = le_nat(t);
        let p = pow256(t.len());
        assert(b[0] as nat + 256 * x < 256 * p) by (nonlinear_arith)
            requires
                x < p,
                b[0] < 256,
        ;
    }
}

/// The kinds of field that an event record is made of.
#[derive(Clone, Copy, Debug, PartialEq, Eq, Structural)]
pub enum FieldType {
    /// A ledger key: a tag byte followed by the tagged variant's bytes.
    Key,
    /// A 32-byte contract hash.
    Hash,
    /// A string: a little-endian `u32` byte length, then that many UTF-8 bytes.
    Text,
    /// A 512-bit unsigned amount: a length byte of at most 64, then that many
    /// little-endian bytes.
    Amount,
    /// A little-endian `u64`.
    U64,
}

/// The value of one decoded field.
pub ghost enum FieldValue {
    Key(Seq<u8>),
    Hash(Seq<u8>),
    Text(Seq<char>),
    Amount(Seq<u8>),
    U64(u64),
}

/// Names what `Key::from_bytes` of casper-types leaves unread of `b`, if it
/// decodes a key there.
pub uninterp spec fn key_rest_len(b: Seq<u8>) -> Option<nat>;

/// `e` is one whole key encoding: whatever follows it, the key decoder reads
/// exactly `e`.
pub open spec fn key_complete(e: Seq<u8>) -> bool {
    &&& e.len() >= 1
    &&& forall|rest: Seq<u8>| #[trigger] key_rest_len(e + rest) == Some(rest.len())
}

/// Some prefix of `s` is a whole key encoding.
pub open spec fn has_key_prefix(s: Seq<u8>) -> bool {
    exists|n: nat| n <= s.len() && key_complete(#[trigger] s.subrange(0, n as int))
}

/// The length of the key encoding that starts `s`.
pub open spec fn key_prefix_len(s: Seq<u8>) -> nat
    recommends
        has_key_prefix(s),
{
    choose|n: nat| n <= s.len() && key_complete(#[trigger] s.subrange(0, n as int))
}

/// Two whole key encodings that start the same bytes have the same length.
pub proof fn lemma_key_prefix_unique(s: Seq<u8>, n1: nat, n2: nat)
    requires
        n1 <= s.len(),
        n2 <= s.len(),
        key_complete(s.subrange(0, n1 as int)),
        key_complete(s.subrange(0, n2 as int)),
    ensures
        n1 == n2,
{
    if n1 < n2 {
        let e1 = s.subrange(0, n1 as int);
        let e2 = s.subrange(0, n2 as int);
        let r = e2.subrange(n1 as int, n2 as int);
        assert(e1 + r =~= e2);
        assert(key_rest_len(e1 + r) == Some(r.len()));
        assert(e2 + Seq::<u8>::empty() =~= e2);
        assert(key_rest_len(e2 + Seq::<u8>::empty()) == Some(0nat));
    } else if n2 < n1 {
        let e1 = s.subrange(0, n1 as int);
        let e2 = s.subrange(0, n2 as int);
        let r = e1.subrange(n2 as int, n1 as int);
        assert(e2 + r =~= e1);
        assert(key_rest_len(e2 + r) == Some(r.len()));
        assert(e1 + Seq::<u8>::empty() =~= e1);
        assert(key_rest_len(e1 + Seq::<u8>::empty()) == Some(0nat));
    }
}

/// The byte length a text field declares in its first four bytes.
pub open spec fn text_len(s: Seq<u8>) -> nat
    recommends
        s.len() >= 4,
{
    le_nat(s.subrange(0, 4))
}

/// Decodes one field of type `t` from the start of `s`: its value and the
/// number of bytes it takes.
pub open spec fn parse_field(t: FieldType, s: Seq<u8>) -> Option<(FieldValue, nat)> {
    match t {
        FieldType::Key => if has_key_prefix(s) {
            let n = key_prefix_len(s);
            Some((FieldValue::Key(s.subrange(0, n as int)), n))
        } else {
            None
        },
        FieldType::Hash => if s.len() >= 32 {
            Some((FieldValue::Hash(s.subrange(0, 32)), 32))
        } else {
            None
        },
        FieldType::Text => if s.len() >= 4 && 4 + text_len(s) <= s.len() && valid_utf8(
            s.subrange(4, 4 + text_len(s) as int),
        ) {
            Some(
                (
                    FieldValue::Text(decode_utf8(s.subrange(4, 4 + text_len(s) as int))),
                    (4 + text_len(s)) as nat,
                ),
            )
        } else {
            None
        },
        FieldType::Amount => if s.len() >= 1 && s[0] <= 64 && 1 + s[0] <= s.len() {
            Some((FieldValue::Amount(s.subrange(1, 1 + s[0])), (1 + s[0]) as nat))
        } else {
            None
        },
        FieldType::U64 => if s.len() >= 8 {
            Some((FieldValue::U64(le_nat(s.subrange(0, 8)) as u64), 8))
        } else {
            None
        },
    }
}

/// Decodes the fields of `layout` one after another from the start of `s`:
/// their values and the number of bytes they take together.
pub open spec fn parse_fields(layout: Seq<FieldType>, s: Seq<u8>) -> Option<(Seq<FieldValue>, nat)>
    decreases layout.len(),
{
    if layout.len() == 0 {
        Some((Seq::empty(), 0))
    } else {
        match parse_fields(layout.drop_last(), s) {
            Some((vals, n)) => if n <= s.len() {
                match parse_field(layout.last(), s.subrange(n as int, s.len() as int)) {
                    Some((v, m)) => Some((vals.push(v), n + m)),
                    None => None,
                }
            } else {
                None
            },
            None => None,
        }
    }
}


pub proof fn lemma_pow256_mono(a: nat, b: nat)
    requires
        a <= b,
    ensures
        pow256(a) <= pow256(b),
    decreases b,
{
    if a < b {
        lemma_pow256_mono(a, (b - 1) as nat);
    }
}

pub proof fn lemma_pow256_eight()
    ensures
        pow256(8) == 0x1_0000_0000_0000_0000,
{
    reveal_with_fuel(pow256, 9);
}

/// A decoded field, as the executable decoder holds it.
#[derive(Clone, Debug, PartialEq, Eq)]
pub enum Field {
    Key(Vec<u8>),
    Hash(Vec<u8>),
    Text(String),
    Amount(Vec<u8>),
    U64(u64),
}

impl View for Field {
    type V = FieldValue;

    open spec fn view(&self) -> FieldValue {
        match self {
            Field::Key(b) => FieldValue::Key(b@),
            Field::Hash(b) => FieldValue::Hash(b@),
            Field::Text(t) => FieldValue::Text(t@),
            Field::Amount(b) => FieldValue::Amount(b@),
            Field::U64(v) => FieldValue::U64(*v),
        }
    }
}

/// The bytes of `b` from `pos` on.
pub open spec fn tail(b: Seq<u8>, pos: int) -> Seq<u8> {
    b.subrange(pos, b.len() as int)
}

/// Reads `n` little-endian bytes at `pos` as an unsigned integer.
pub fn read_le(b: &[u8], pos: usize, n: usize) -> (r: u64)
    requires
        n <= 8,
        pos + n <= b@.len(),
    ensures
        r as nat == le_nat(b@.subrange(pos as int, pos + n)),
{
    let blen = b.len();
    let mut v: u64 = 0;
    let mut i: usize = n;
    proof {
        assert(b@.subrange(pos + n, pos + n) =~= Seq::<u8>::empty());
    }
    while i > 0
        invariant
            i <= n,
            n <= 8,
            pos + n <= b@.len(),
            b@.len() == blen,
            v as nat == le_nat(b@.subrange(pos + i, pos + n)),
        decreases i,
    {
        let ghost t = b@.subrange(pos + i - 1, pos + n);
        proof {
            assert(t.subrange(1, t.len() as int) =~= b@.subrange(pos + i, pos + n));
            assert(t[0] == b@[pos + i - 1]);
            lemma_le_nat_bound(t);
            lemma_pow256_mono(t.len(), 8);
            lemma_pow256_eight();
        }
        v = v * 256 + b[pos + i - 1] as u64;
        i = i - 1;
    }
    proof {
        assert(b@.subrange(pos as int, pos + n) =~= b@.subrange(pos + 0, pos + n));
    }
    v
}

/// Copies `n` bytes of `b` from `pos`.
pub fn copy_bytes(b: &[u8], pos: usize, n: usize) -> (r: Vec<u8>)
    requires
        pos + n <= b@.len(),
    ensures
        r@ == b@.subrange(pos as int, pos + n),
{
    let blen = b.len();
    let mut out: Vec<u8> = Vec::new();
    let mut i: usize = 0;
    while i < n
        invariant
            i <= n,
            b@.len() == blen,
            pos + n <= b@.len(),
            out@ =~= b@.subrange(pos as int, pos + i),
        decreases n - i,
    {
        out.push(b[pos + i]);
        i = i + 1;
    }
    out
}

/// Relies on casper-types' `Key::from_bytes`: on success it hands back the
/// unread rest of its input, having read at least the tag byte, and what it
/// read decodes the same whatever follows it.
#[verifier::external_body]
fn key_rest(b: &[u8], pos: usize) -> (r: Option<usize>)
    requires
        pos <= b@.len(),
    ensures
        r matches Some(m) ==> key_rest_len(tail(b@, pos as int)) == Some(m as nat) && m < tail(
            b@,
            pos as int,
        ).len() && key_complete(tail(b@, pos as int).subrange(0, b@.len() - pos - m)),
        r is None ==> key_rest_len(tail(b@, pos as int)) is None,
{
    match casper_types::Key::from_bytes(&b[pos..]) {
        Ok((_, rem)) => Some(rem.len()),
        Err(_) => None,
    }
}

/// Relies on casper-types' `String::from_bytes`: a little-endian `u32` byte
/// length, then that many bytes that must be UTF-8; it hands back the unread
/// rest of its input.
#[verifier::external_body]
fn text_at(b: &[u8], pos: usize) -> (r: Option<(String, usize)>)
    requires
        pos <= b@.len(),
    ensures
        r matches Some((t, m)) ==> m <= tail(b@, pos as int).len() && parse_field(
            FieldType::Text,
            tail(b@, pos as int),
        ) == Some((FieldValue::Text(t@), (b@.len() - pos - m) as nat)),
        r is None ==> parse_field(FieldType::Text, tail(b@, pos as int)) is None,
{
    match String::from_bytes(&b[pos..]) {
        Ok((t, rem)) => Some((t, rem.len())),
        Err(_) => None,
    }
}

/// Decodes one field of type `t` at `pos`: the field and the position after it.
pub fn read_field(t: FieldType, b: &[u8], pos: usize) -> (r: Option<(Field, usize)>)
    requires
        pos <= b@.len(),
    ensures
        match parse_field(t, tail(b@, pos as int)) {
            Some((v, m)) => r matches Some((f, p)) && f@ == v && p == pos + m,
            None => r is None,
        },
{
    let ghost s = tail(b@, pos as int);
    let left = b.len() - pos;
    match t {
        FieldType::Key => {
            match key_rest(b, pos) {
                Some(m) => {
                    let n = left - m;
                    proof {
                        assert(s.subrange(0, n as int) =~= b@.subrange(pos as int, pos + n));
                        assert(has_key_prefix(s));
                        lemma_key_prefix_unique(s, n as nat, key_prefix_len(s));
                    }
                    let k = copy_bytes(b, pos, n);
                    Some((Field::Key(k), pos + n))
                },
                None => {
                    proof {
                        if has_key_prefix(s) {
                            let n = key_prefix_len(s);
                            let e = s.subrange(0, n as int);
                            let rest = s.subrange(n as int, s.len() as int);
                            assert(e + rest =~= s);
                            assert(key_rest_len(e + rest) == Some(rest.len()));
                        }
                    }
                    None
                },
            }
        },
        FieldType::Hash => {
            if left >= 32 {
                let h = copy_bytes(b, pos, 32);
                proof {
                    assert(s.subrange(0, 32) =~= b@.subrange(pos as int, pos + 32));
                }
                Some((Field::Hash(h), pos + 32))
            } else {
                None
            }
        },
        FieldType::Text => {
            match text_at(b, pos) {
                Some((text, m)) => Some((Field::Text(text), b.len() - m)),
                None => None,
            }
        },
        FieldType::Amount => {
            if left >= 1 && b[pos] <= 64 && 1 + (b[pos] as usize) <= left {
                let n = b[pos] as usize;
                let a = copy_bytes(b, pos + 1, n);
                proof {
                    assert(s[0] == b@[pos as int]);
                    assert(s.subrange(1, 1 + s[0]) =~= b@.subrange(pos + 1, pos + 1 + n));
                }
                Some((Field::Amount(a), pos + 1 + n))
            } else {
                proof {
                    if left >= 1 {
                        assert(s[0] == b@[pos as int]);
                    }
                }
                None
            }
        },
        FieldType::U64 => {
            if left >= 8 {
                let v = read_le(b, pos, 8);
                proof {
                    assert(s.subrange(0, 8) =~= b@.subrange(pos as int, pos + 8));
                }
                Some((Field::U64(v), pos + 8))
            } else {
                None
            }
        },
    }
}


/// The type of a field value.
pub open spec fn type_of(v: FieldValue) -> FieldType {
    match v {
        FieldValue::Key(_) => FieldType::Key,
        FieldValue::Hash(_) => FieldType::Hash,
        FieldValue::Text(_) => FieldType::Text,
        FieldValue::Amount(_) => FieldType::Amount,
        FieldValue::U64(_) => FieldType::U64,
    }
}

/// A hash value has 32 bytes, an amount at most 64.
pub open spec fn sized(v: FieldValue) -> bool {
    match v {
        FieldValue::Hash(b) => b.len() == 32,
        FieldValue::Amount(b) => b.len() <= 64,
        _ => true,
    }
}

/// `vals` has one value of the right type and size for each field of
/// `layout`.
pub open spec fn conforms(vals: Seq<FieldValue>, layout: Seq<FieldType>) -> bool {
    &&& vals.len() == layout.len()
    &&& forall|i: int| 0 <= i < vals.len() ==> type_of(#[trigger] vals[i]) == layout[i] && sized(vals[i])
}

pub proof fn lemma_parse_fields_conforms(layout: Seq<FieldType>, s: Seq<u8>)
    ensures
        parse_fields(layout, s) matches Some((vals, n)) ==> conforms(vals, layout) && n <= s.len(),
    decreases layout.len(),
{
    if layout.len() > 0 {
        lemma_parse_fields_conforms(layout.drop_last(), s);
        if let Some((vals, n)) = parse_fields(layout, s) {
            let (prev, k) = parse_fields(layout.drop_last(), s).unwrap();
            assert(vals == prev.push(vals.last()));
            assert forall|i: int| 0 <= i < vals.len() implies type_of(#[trigger] vals[i])
                == layout[i] && sized(vals[i]) by {
                if i < prev.len() {
                    assert(vals[i] == prev[i]);
                    assert(layout.drop_last()[i] == layout[i]);
                }
            }
        }
    }
}

/// The views of a run of decoded fields.
pub open spec fn field_views(fs: Seq<Field>) -> Seq<FieldValue> {
    fs.map_values(|f: Field| f@)
}

/// Decodes the fields of `layout` one after another from the start of `b`:
/// the fields and the number of bytes they take.
pub fn decode_fields(layout: &Vec<FieldType>, b: &[u8]) -> (r: Option<(Vec<Field>, usize)>)
    ensures
        match parse_fields(layout@, b@) {
            Some((vals, n)) => r matches Some((fs, p)) && field_views(fs@) == vals && p == n,
            None => r is None,
        },
{
    let mut fs: Vec<Field> = Vec::new();
    let mut pos: usize = 0;
    let mut i: usize = 0;
    proof {
        assert(layout@.subrange(0, 0).len() == 0);
        assert(field_views(fs@) =~= Seq::<FieldValue>::empty());
    }
    while i < layout.len()
        invariant
            i <= layout@.len(),
            pos <= b@.len(),
            parse_fields(layout@.subrange(0, i as int), b@) == Some((field_views(fs@), pos as nat)),
        decreases layout@.len() - i,
    {
        let t = layout[i];
        let ghost pre = layout@.subrange(0, i as int);
        let ghost next = layout@.subrange(0, i + 1);
        proof {
            assert(next.drop_last() =~= pre);
            assert(next.last() == t);
        }
        match read_field(t, b, pos) {
            Some((f, p)) => {
                let ghost old_fs = fs@;
                fs.push(f);
                proof {
                    assert(field_views(fs@) =~= field_views(old_fs).push(f@));
                }
                pos = p;
            },
            None => {
                proof {
                    lemma_parse_none_extends(layout@, b@, (i + 1) as nat);
                }
                return None;
            },
        }
        i = i + 1;
    }
    proof {
        assert(layout@.subrange(0, i as int) =~= layout@);
    }
    Some((fs, pos))
}

/// Once a prefix of a layout fails to decode, the whole layout does.
pub proof fn lemma_parse_none_extends(layout: Seq<FieldType>, s: Seq<u8>, k: nat)
    requires
        k <= layout.len(),
        parse_fields(layout.subrange(0, k as int), s) is None,
    ensures
        parse_fields(layout, s) is None,
    decreases layout.len() - k,
{
    if k < layout.len() {
        let next = layout.subrange(0, (k + 1) as int);
        assert(next.drop_last() =~= layout.subrange(0, k as int));
        lemma_parse_none_extends(layout, s, k + 1);
    } else {
        assert(layout.subrange(0, k as int) =~= layout);
    }
}


/// A field decodes the same whatever follows the bytes it takes.
pub proof fn lemma_parse_field_stable(t: FieldType, s: Seq<u8>, rest: Seq<u8>)
    requires
        parse_field(t, s) is Some,
    ensures
        ({
            let m = parse_field(t, s).unwrap().1;
            m <= s.len() && parse_field(t, s.subrange(0, m as int) + rest) == parse_field(t, s)
        }),
{
    let m = parse_field(t, s).unwrap().1;
    let s2 = s.subrange(0, m as int) + rest;
    match t {
        FieldType::Key => {
            assert(s2.subrange(0, m as int) =~= s.subrange(0, m as int));
            lemma_key_prefix_unique(s2, m, key_prefix_len(s2));
        },
        FieldType::Hash => {
            assert(s2.subrange(0, 32) =~= s.subrange(0, 32));
        },
        FieldType::Text => {
            assert(s2.subrange(0, 4) =~= s.subrange(0, 4));
            assert(s2.subrange(4, 4 + text_len(s) as int) =~= s.subrange(4, 4 + text_len(s) as int));
        },
        FieldType::Amount => {
            assert(s2[0] == s[0]);
            assert(s2.subrange(1, 1 + s[0]) =~= s.subrange(1, 1 + s[0]));
        },
        FieldType::U64 => {
            assert(s2.subrange(0, 8) =~= s.subrange(0, 8));
        },
    }
}

/// A layout decodes the same whatever follows the bytes it takes.
pub proof fn lemma_parse_fields_stable(layout: Seq<FieldType>, s: Seq<u8>, rest: Seq<u8>)
    requires
        parse_fields(layout, s) is Some,
    ensures
        ({
            let n = parse_fields(layout, s).unwrap().1;
            n <= s.len() && parse_fields(layout, s.subrange(0, n as int) + rest) == parse_fields(
                layout,
                s,
            )
        }),
    decreases layout.len(),
{
    lemma_parse_fields_conforms(layout, s);
    if layout.len() > 0 {
        let pre = layout.drop_last();
        let (vals, k) = parse_fields(pre, s).unwrap();
        let n = parse_fields(layout, s).unwrap().1;
        let s2 = s.subrange(0, n as int) + rest;
        let t = s.subrange(k as int, s.len() as int);
        let m = parse_field(layout.last(), t).unwrap().1;
        lemma_parse_field_stable(layout.last(), t, rest);
        lemma_parse_fields_conforms(pre, s);
        // the earlier fields see the same bytes, followed by something else
        let r1 = s2.subrange(k as int, s2.len() as int);
        assert(s.subrange(0, k as int) + r1 =~= s2);
        lemma_parse_fields_stable(pre, s, r1);
        assert(r1 =~= t.subrange(0, m as int) + rest);
    }
}

/// `v` as `n` little-endian bytes.
pub open spec fn le_bytes(v: nat, n: nat) -> Seq<u8>
    decreases n,
{
    if n == 0 {
        Seq::empty()
    } else {
        seq![(v % 256) as u8] + le_bytes(v / 256, (n - 1) as nat)
    }
}

pub proof fn lemma_le_bytes(v: nat, n: nat)
    requires
        v < pow256(n),
    ensures
        le_bytes(v, n).len() == n,
        le_nat(le_bytes(v, n)) == v,
    decreases n,
{
    if n > 0 {
        let b = le_bytes(v, n);
        let p = pow256((n - 1) as nat);
        assert(v / 256 < p) by (nonlinear_arith)
            requires
                v < 256 * p,
        ;
        lemma_le_bytes(v / 256, (n - 1) as nat);
        assert(b.subrange(1, b.len() as int) =~= le_bytes(v / 256, (n - 1) as nat));
        assert(v == v % 256 + 256 * (v / 256)) by (nonlinear_arith);
    }
}

/// The canonical encoding of one field value.
pub open spec fn field_bytes(v: FieldValue) -> Seq<u8> {
    match v {
        FieldValue::Key(b) => b,
        FieldValue::Hash(b) => b,
        FieldValue::Text(t) => le_bytes(encode_utf8(t).len(), 4) + encode_utf8(t),
        FieldValue::Amount(b) => seq![b.len() as u8] + b,
        FieldValue::U64(n) => le_bytes(n as nat, 8),
    }
}

/// The canonical encoding of field values, one after another.
pub open spec fn fields_bytes(vals: Seq<FieldValue>) -> Seq<u8>
    decreases vals.len(),
{
    if vals.len() == 0 {
        Seq::empty()
    } else {
        fields_bytes(vals.drop_last()) + field_bytes(vals.last())
    }
}

/// `v` has a canonical encoding: a whole key, a 32-byte hash, a text of
/// fewer than 2^32 bytes, an amount of at most 64 bytes.
pub open spec fn encodable(v: FieldValue) -> bool {
    match v {
        FieldValue::Key(b) => key_complete(b),
        FieldValue::Hash(b) => b.len() == 32,
        FieldValue::Text(t) => encode_utf8(t).len() < pow256(4),
        FieldValue::Amount(b) => b.len() <= 64,
        FieldValue::U64(_) => true,
    }
}

/// A field value decodes back from its encoding, whatever follows it.
pub proof fn lemma_field_round_trip(v: FieldValue, rest: Seq<u8>)
    requires
        encodable(v),
    ensures
        parse_field(type_of(v), field_bytes(v) + rest) == Some((v, field_bytes(v).len())),
{
    let s = field_bytes(v) + rest;
    match v {
        FieldValue::Key(b) => {
            assert(s.subrange(0, b.len() as int) =~= b);
            lemma_key_prefix_unique(s, b.len(), key_prefix_len(s));
        },
        FieldValue::Hash(b) => {
            assert(s.subrange(0, 32) =~= b);
        },
        FieldValue::Text(t) => {
            let e = encode_utf8(t);
            lemma_le_bytes(e.len(), 4);
            assert(s.subrange(0, 4) =~= le_bytes(e.len(), 4));
            assert(s.subrange(4, 4 + e.len() as int) =~= e);
            encode_utf8_valid_utf8(t);
            encode_utf8_decode_utf8(t);
        },
        FieldValue::Amount(b) => {
            assert(s.subrange(1, 1 + b.len() as int) =~= b);
        },
        FieldValue::U64(n) => {
            lemma_pow256_eight();
            lemma_le_bytes(n as nat, 8);
            assert(s.subrange(0, 8) =~= le_bytes(n as nat, 8));
        },
    }
}

/// Values that fit a layout decode back from their encoding, whatever
/// follows it.
pub proof fn lemma_fields_round_trip(layout: Seq<FieldType>, vals: Seq<FieldValue>, rest: Seq<u8>)
    requires
        vals.len() == layout.len(),
        forall|i: int| 0 <= i < vals.len() ==> type_of(#[trigger] vals[i]) == layout[i] && encodable(vals[i]),
    ensures
        parse_fields(layout, fields_bytes(vals) + rest) == Some((vals, fields_bytes(vals).len())),
    decreases layout.len(),
{
    if layout.len() > 0 {
        let pre = vals.drop_last();
        let v = vals.last();
        let s = fields_bytes(vals) + rest;
        let r1 = field_bytes(v) + rest;
        assert forall|i: int| 0 <= i < pre.len() implies type_of(#[trigger] pre[i])
            == layout.drop_last()[i] && encodable(pre[i]) by {
            assert(pre[i] == vals[i]);
        }
        assert(fields_bytes(pre) + r1 =~= s);
        lemma_fields_round_trip(layout.drop_last(), pre, r1);
        assert(s.subrange(fields_bytes(pre).len() as int, s.len() as int) =~= r1);
        assert(type_of(v) == layout.last());
        lemma_field_round_trip(v, rest);
        assert(pre.push(v) =~= vals);
    } else {
        assert(vals =~= Seq::<FieldValue>::empty());
    }
}

} // verus!
