//! The persistence format for structures: a length-prefixed little-endian
//! byte encoding. Encoding and decoding are verified, and decoding an
//! encoded structure is proved to give back the original, field for
//! field, which is the round-trip fidelity the persistence store owes.

use vstd::prelude::*;
use vstd::bytes::{
    lemma_auto_spec_u64_to_from_le_bytes, spec_u64_from_le_bytes, spec_u64_to_le_bytes,
    u64_from_le_bytes, u64_to_le_bytes,
};
use vstd::slice::{slice_subrange, slice_to_vec};
use vstd::string::*;
use vstd::utf8::{decode_utf8, encode_utf8, encode_utf8_decode_utf8, encode_utf8_valid_utf8,
    valid_utf8};
use crate::model::{AreaV, CatV, ItemV, JDArea, JDCategory, JDItem, JDStructure, StructV};

verus! {

// ----- the encoding, as a function of the mathematical views -----

/// One unsigned count or length, eight bytes little-endian.
pub open spec fn enc_u64(x: u64) -> Seq<u8> {
    spec_u64_to_le_bytes(x)
}

/// A string: its UTF-8 byte length, then its UTF-8 bytes.
pub open spec fn enc_str(s: Seq<char>) -> Seq<u8> {
    enc_u64(encode_utf8(s).len() as u64) + encode_utf8(s)
}

/// An optional string: a presence tag, then the string if present.
pub open spec fn enc_opt_str(o: Option<Seq<char>>) -> Seq<u8> {
    match o {
        None => seq![0u8],
        Some(s) => seq![1u8] + enc_str(s),
    }
}

/// Strings back to back, in order.
pub open spec fn enc_strs(v: Seq<Seq<char>>) -> Seq<u8>
    decreases v.len(),
{
    if v.len() == 0 {
        Seq::empty()
    } else {
        enc_str(v[0]) + enc_strs(v.drop_first())
    }
}

pub open spec fn enc_item(it: ItemV) -> Seq<u8> {
    enc_str(it.number) + enc_str(it.name) + enc_opt_str(it.description) + enc_u64(
        it.files.len() as u64,
    ) + enc_strs(it.files)
}

pub open spec fn enc_items(v: Seq<ItemV>) -> Seq<u8>
    decreases v.len(),
{
    if v.len() == 0 {
        Seq::empty()
    } else {
        enc_item(v[0]) + enc_items(v.drop_first())
    }
}

pub open spec fn enc_cat(c: CatV) -> Seq<u8> {
    seq![c.number] + enc_str(c.name) + enc_opt_str(c.description) + enc_u64(c.items.len() as u64)
        + enc_items(c.items)
}

pub open spec fn enc_cats(v: Seq<CatV>) -> Seq<u8>
    decreases v.len(),
{
    if v.len() == 0 {
        Seq::empty()
    } else {
        enc_cat(v[0]) + enc_cats(v.drop_first())
    }
}

pub open spec fn enc_area(a: AreaV) -> Seq<u8> {
    seq![a.number] + enc_str(a.name) + enc_opt_str(a.description) + enc_u64(
        a.categories.len() as u64,
    ) + enc_cats(a.categories)
}

pub open spec fn enc_areas(v: Seq<AreaV>) -> Seq<u8>
    decreases v.len(),
{
    if v.len() == 0 {
        Seq::empty()
    } else {
        enc_area(v[0]) + enc_areas(v.drop_first())
    }
}

/// A whole structure: identity, name, root location, the two timestamps,
/// then the areas.
pub open spec fn enc_struct(s: StructV) -> Seq<u8> {
    enc_str(s.id) + enc_str(s.name) + enc_str(s.root_path) + enc_u64(s.created_at as u64) + enc_u64(
        s.modified_at as u64,
    ) + enc_u64(s.areas.len() as u64) + enc_areas(s.areas)
}

// ----- representability: every length fits its length prefix -----

pub open spec fn str_ok(s: Seq<char>) -> bool {
    encode_utf8(s).len() <= u64::MAX
}

pub open spec fn opt_str_ok(o: Option<Seq<char>>) -> bool {
    match o {
        None => true,
        Some(s) => str_ok(s),
    }
}

pub open spec fn item_ok(it: ItemV) -> bool {
    &&& str_ok(it.number)
    &&& str_ok(it.name)
    &&& opt_str_ok(it.description)
    &&& it.files.len() <= u64::MAX
    &&& forall|i: int| 0 <= i < it.files.len() ==> str_ok(#[trigger] it.files[i])
}

pub open spec fn cat_ok(c: CatV) -> bool {
    &&& str_ok(c.name)
    &&& opt_str_ok(c.description)
    &&& c.items.len() <= u64::MAX
    &&& forall|i: int| 0 <= i < c.items.len() ==> item_ok(#[trigger] c.items[i])
}

pub open spec fn area_ok(a: AreaV) -> bool {
    &&& str_ok(a.name)
    &&& opt_str_ok(a.description)
    &&& a.categories.len() <= u64::MAX
    &&& forall|i: int| 0 <= i < a.categories.len() ==> cat_ok(#[trigger] a.categories[i])
}

/// Whether every string and every count of the structure fits its length
/// prefix; every structure a program can hold satisfies this.
pub open spec fn encodable(s: StructV) -> bool {
    &&& str_ok(s.id)
    &&& str_ok(s.name)
    &&& str_ok(s.root_path)
    &&& s.areas.len() <= u64::MAX
    &&& forall|i: int| 0 <= i < s.areas.len() ==> area_ok(#[trigger] s.areas[i])
}

// ----- the decoding, as a function of the byte sequence -----

pub open spec fn dec_u8(b: Seq<u8>, pos: int) -> Option<(u8, int)> {
    if 0 <= pos && pos + 1 <= b.len() {
        Some((b[pos], pos + 1))
    } else {
        None
    }
}

pub open spec fn dec_u64(b: Seq<u8>, pos: int) -> Option<(u64, int)> {
    if 0 <= pos && pos + 8 <= b.len() {
        Some((spec_u64_from_le_bytes(b.subrange(pos, pos + 8)), pos + 8))
    } else {
        None
    }
}

pub open spec fn dec_str(b: Seq<u8>, pos: int) -> Option<(Seq<char>, int)> {
    match dec_u64(b, pos) {
        Some((n, p)) => {
            if p + n <= b.len() && valid_utf8(b.subrange(p, p + n)) {
                Some((decode_utf8(b.subrange(p, p + n)), p + n))
            } else {
                None
            }
        },
        None => None,
    }
}

pub open spec fn dec_opt_str(b: Seq<u8>, pos: int) -> Option<(Option<Seq<char>>, int)> {
    match dec_u8(b, pos) {
        Some((tag, p)) => {
            if tag == 0 {
                Some((None, p))
            } else if tag == 1 {
                match dec_str(b, p) {
                    Some((s, p2)) => Some((Some(s), p2)),
                    None => None,
                }
            } else {
                None
            }
        },
        None => None,
    }
}

pub open spec fn dec_strs(b: Seq<u8>, pos: int, n: nat) -> Option<(Seq<Seq<char>>, int)>
    decreases n,
{
    if n == 0 {
        Some((Seq::empty(), pos))
    } else {
        match dec_str(b, pos) {
            Some((s, p)) => match dec_strs(b, p, (n - 1) as nat) {
                Some((v, p2)) => Some((seq![s] + v, p2)),
                None => None,
            },
            None => None,
        }
    }
}

pub open spec fn dec_item(b: Seq<u8>, pos: int) -> Option<(ItemV, int)> {
    match dec_str(b, pos) {
        Some((number, p1)) => match dec_str(b, p1) {
            Some((name, p2)) => match dec_opt_str(b, p2) {
                Some((description, p3)) => match dec_u64(b, p3) {
                    Some((n, p4)) => match dec_strs(b, p4, n as nat) {
                        Some((files, p5)) => Some(
                            (ItemV { number, name, description, files }, p5),
                        ),
                        None => None,
                    },
                    None => None,
                },
                None => None,
            },
            None => None,
        },
        None => None,
    }
}

pub open spec fn dec_items(b: Seq<u8>, pos: int, n: nat) -> Option<(Seq<ItemV>, int)>
    decreases n,
{
    if n == 0 {
        Some((Seq::empty(), pos))
    } else {
        match dec_item(b, pos) {
            Some((it, p)) => match dec_items(b, p, (n - 1) as nat) {
                Some((v, p2)) => Some((seq![it] + v, p2)),
                None => None,
            },
            None => None,
        }
    }
}

pub open spec fn dec_cat(b: Seq<u8>, pos: int) -> Option<(CatV, int)> {
    match dec_u8(b, pos) {
        Some((number, p0)) => match dec_str(b, p0) {
            Some((name, p1)) => match dec_opt_str(b, p1) {
                Some((description, p2)) => match dec_u64(b, p2) {
                    Some((n, p3)) => match dec_items(b, p3, n as nat) {
                        Some((items, p4)) => Some(
                            (CatV { number, name, description, items }, p4),
                        ),
                        None => None,
                    },
                    None => None,
                },
                None => None,
            },
            None => None,
        },
        None => None,
    }
}

pub open spec fn dec_cats(b: Seq<u8>, pos: int, n: nat) -> Option<(Seq<CatV>, int)>
    decreases n,
{
    if n == 0 {
        Some((Seq::empty(), pos))
    } else {
        match dec_cat(b, pos) {
            Some((c, p)) => match dec_cats(b, p, (n - 1) as nat) {
                Some((v, p2)) => Some((seq![c] + v, p2)),
                None => None,
            },
            None => None,
        }
    }
}

pub open spec fn dec_area(b: Seq<u8>, pos: int) -> Option<(AreaV, int)> {
    match dec_u8(b, pos) {
        Some((number, p0)) => match dec_str(b, p0) {
            Some((name, p1)) => match dec_opt_str(b, p1) {
                Some((description, p2)) => match dec_u64(b, p2) {
                    Some((n, p3)) => match dec_cats(b, p3, n as nat) {
                        Some((categories, p4)) => Some(
                            (AreaV { number, name, description, categories }, p4),
                        ),
                        None => None,
                    },
                    None => None,
                },
                None => None,
            },
            None => None,
        },
        None => None,
    }
}

pub open spec fn dec_areas(b: Seq<u8>, pos: int, n: nat) -> Option<(Seq<AreaV>, int)>
    decreases n,
{
    if n == 0 {
        Some((Seq::empty(), pos))
    } else {
        match dec_area(b, pos) {
            Some((a, p)) => match dec_areas(b, p, (n - 1) as nat) {
                Some((v, p2)) => Some((seq![a] + v, p2)),
                None => None,
            },
            None => None,
        }
    }
}

pub open spec fn dec_struct(b: Seq<u8>, pos: int) -> Option<(StructV, int)> {
    match dec_str(b, pos) {
        Some((id, p1)) => match dec_str(b, p1) {
            Some((name, p2)) => match dec_str(b, p2) {
                Some((root_path, p3)) => match dec_u64(b, p3) {
                    Some((created, p4)) => match dec_u64(b, p4) {
                        Some((modified, p5)) => match dec_u64(b, p5) {
                            Some((n, p6)) => match dec_areas(b, p6, n as nat) {
                                Some((areas, p7)) => Some(
                                    (
                                        StructV {
                                            id,
                                            name,
                                            root_path,
                                            areas,
                                            created_at: created as i64,
                                            modified_at: modified as i64,
                                        },
                                        p7,
                                    ),
                                ),
                                None => None,
                            },
                            None => None,
                        },
                        None => None,
                    },
                    None => None,
                },
                None => None,
            },
            None => None,
        },
        None => None,
    }
}

// ----- the round trip: decoding what was encoded gives it back -----

/// A byte span holding `pre + suf` holds `pre`, then `suf`.
proof fn lemma_split_at(b: Seq<u8>, pos: int, pre: Seq<u8>, suf: Seq<u8>)
    requires
        0 <= pos,
        pos + pre.len() + suf.len() <= b.len(),
        b.subrange(pos, pos + pre.len() + suf.len()) == pre + suf,
    ensures
        b.subrange(pos, pos + pre.len()) == pre,
        b.subrange(pos + pre.len(), pos + pre.len() + suf.len()) == suf,
{
    assert forall|k: int| 0 <= k < pre.len() implies b.subrange(pos, pos + pre.len())[k]
        == pre[k] by {
        assert(b.subrange(pos, pos + pre.len() + suf.len())[k] == (pre + suf)[k]);
    }
    assert(b.subrange(pos, pos + pre.len()) =~= pre);
    assert forall|k: int| 0 <= k < suf.len() implies b.subrange(
        pos + pre.len(),
        pos + pre.len() + suf.len(),
    )[k] == suf[k] by {
        assert(b.subrange(pos + pre.len(), pos + pre.len() + suf.len())[k] == b[pos + pre.len()
            + k]);
        assert(b.subrange(pos, pos + pre.len() + suf.len())[pre.len() + k] == b[pos + (pre.len()
            + k)]);
        assert(b.subrange(pos, pos + pre.len() + suf.len())[pre.len() + k] == (pre + suf)[pre.len()
            + k]);
        assert((pre + suf)[pre.len() + k] == suf[k]);
    }
    assert(b.subrange(pos + pre.len(), pos + pre.len() + suf.len()) =~= suf);
}

proof fn lemma_rt_u64(x: u64, b: Seq<u8>, pos: int)
    requires
        0 <= pos,
        pos + 8 <= b.len(),
        b.subrange(pos, pos + 8) == enc_u64(x),
    ensures
        dec_u64(b, pos) == Some((x, pos + 8)),
{
    lemma_auto_spec_u64_to_from_le_bytes();
}

proof fn lemma_rt_u8(x: u8, b: Seq<u8>, pos: int)
    requires
        0 <= pos,
        pos + 1 <= b.len(),
        b.subrange(pos, pos + 1) == seq![x],
    ensures
        dec_u8(b, pos) == Some((x, pos + 1)),
{
    assert(b[pos] == b.subrange(pos, pos + 1)[0]);
}

proof fn lemma_rt_str(s: Seq<char>, b: Seq<u8>, pos: int)
    requires
        str_ok(s),
        0 <= pos,
        pos + enc_str(s).len() <= b.len(),
        b.subrange(pos, pos + enc_str(s).len()) == enc_str(s),
    ensures
        dec_str(b, pos) == Some((s, pos + enc_str(s).len())),
{
    let u = encode_utf8(s);
    let l8 = enc_u64(u.len() as u64);
    lemma_auto_spec_u64_to_from_le_bytes();
    lemma_split_at(b, pos, l8, u);
    lemma_rt_u64(u.len() as u64, b, pos);
    encode_utf8_valid_utf8(s);
    encode_utf8_decode_utf8(s);
}

proof fn lemma_rt_opt_str(o: Option<Seq<char>>, b: Seq<u8>, pos: int)
    requires
        opt_str_ok(o),
        0 <= pos,
        pos + enc_opt_str(o).len() <= b.len(),
        b.subrange(pos, pos + enc_opt_str(o).len()) == enc_opt_str(o),
    ensures
        dec_opt_str(b, pos) == Some((o, pos + enc_opt_str(o).len())),
{
    match o {
        None => {
            lemma_rt_u8(0, b, pos);
        },
        Some(s) => {
            lemma_split_at(b, pos, seq![1u8], enc_str(s));
            lemma_rt_u8(1, b, pos);
            lemma_rt_str(s, b, pos + 1);
        },
    }
}

proof fn lemma_rt_strs(v: Seq<Seq<char>>, b: Seq<u8>, pos: int)
    requires
        forall|i: int| 0 <= i < v.len() ==> str_ok(#[trigger] v[i]),
        0 <= pos,
        pos + enc_strs(v).len() <= b.len(),
        b.subrange(pos, pos + enc_strs(v).len()) == enc_strs(v),
    ensures
        dec_strs(b, pos, v.len()) == Some((v, pos + enc_strs(v).len())),
    decreases v.len(),
{
    if v.len() == 0 {
        assert(v =~= Seq::<Seq<char>>::empty());
    } else {
        let rest = v.drop_first();
        lemma_split_at(b, pos, enc_str(v[0]), enc_strs(rest));
        lemma_rt_str(v[0], b, pos);
        let p = pos + enc_str(v[0]).len();
        assert forall|i: int| 0 <= i < rest.len() implies str_ok(#[trigger] rest[i]) by {
            assert(rest[i] == v[i + 1]);
        }
        lemma_rt_strs(rest, b, p);
        assert(seq![v[0]] + rest =~= v);
    }
}

#[verifier::rlimit(50)]
proof fn lemma_rt_item(it: ItemV, b: Seq<u8>, pos: int)
    requires
        item_ok(it),
        0 <= pos,
        pos + enc_item(it).len() <= b.len(),
        b.subrange(pos, pos + enc_item(it).len()) == enc_item(it),
    ensures
        dec_item(b, pos) == Some((it, pos + enc_item(it).len())),
{
    let e1 = enc_str(it.number);
    let e2 = enc_str(it.name);
    let e3 = enc_opt_str(it.description);
    let e4 = enc_u64(it.files.len() as u64);
    let e5 = enc_strs(it.files);
    lemma_split_at(b, pos, e1 + e2 + e3 + e4, e5);
    lemma_split_at(b, pos, e1 + e2 + e3, e4);
    lemma_split_at(b, pos, e1 + e2, e3);
    lemma_split_at(b, pos, e1, e2);
    let p1 = pos + e1.len();
    let p2 = p1 + e2.len();
    let p3 = p2 + e3.len();
    let p4 = p3 + e4.len();
    lemma_rt_str(it.number, b, pos);
    lemma_rt_str(it.name, b, p1);
    lemma_rt_opt_str(it.description, b, p2);
    lemma_auto_spec_u64_to_from_le_bytes();
    lemma_rt_u64(it.files.len() as u64, b, p3);
    lemma_rt_strs(it.files, b, p4);
    assert((it.files.len() as u64) as nat == it.files.len());
    assert(dec_item(b, pos) == Some((ItemV { ..it }, pos + enc_item(it).len())));
}

#[verifier::rlimit(50)]
proof fn lemma_rt_items(v: Seq<ItemV>, b: Seq<u8>, pos: int)
    requires
        forall|i: int| 0 <= i < v.len() ==> item_ok(#[trigger] v[i]),
        0 <= pos,
        pos + enc_items(v).len() <= b.len(),
        b.subrange(pos, pos + enc_items(v).len()) == enc_items(v),
    ensures
        dec_items(b, pos, v.len()) == Some((v, pos + enc_items(v).len())),
    decreases v.len(),
{
    if v.len() == 0 {
        assert(v =~= Seq::<ItemV>::empty());
    } else {
        let rest = v.drop_first();
        lemma_split_at(b, pos, enc_item(v[0]), enc_items(rest));
        lemma_rt_item(v[0], b, pos);
        let p = pos + enc_item(v[0]).len();
        assert forall|i: int| 0 <= i < rest.len() implies item_ok(#[trigger] rest[i]) by {
            assert(rest[i] == v[i + 1]);
        }
        lemma_rt_items(rest, b, p);
        assert(seq![v[0]] + rest =~= v);
    }
}

#[verifier::rlimit(50)]
proof fn lemma_rt_cat(c: CatV, b: Seq<u8>, pos: int)
    requires
        cat_ok(c),
        0 <= pos,
        pos + enc_cat(c).len() <= b.len(),
        b.subrange(pos, pos + enc_cat(c).len()) == enc_cat(c),
    ensures
        dec_cat(b, pos) == Some((c, pos + enc_cat(c).len())),
{
    lemma_auto_spec_u64_to_from_le_bytes();
    let e1 = seq![c.number];
    let e2 = enc_str(c.name);
    let e3 = enc_opt_str(c.description);
    let e4 = enc_u64(c.items.len() as u64);
    let e5 = enc_items(c.items);
    lemma_split_at(b, pos, e1 + e2 + e3 + e4, e5);
    lemma_split_at(b, pos, e1 + e2 + e3, e4);
    lemma_split_at(b, pos, e1 + e2, e3);
    lemma_split_at(b, pos, e1, e2);
    let p1 = pos + e1.len();
    let p2 = p1 + e2.len();
    let p3 = p2 + e3.len();
    let p4 = p3 + e4.len();
    lemma_rt_u8(c.number, b, pos);
    lemma_rt_str(c.name, b, p1);
    lemma_rt_opt_str(c.description, b, p2);
    lemma_rt_u64(c.items.len() as u64, b, p3);
    lemma_rt_items(c.items, b, p4);
    assert((c.items.len() as u64) as nat == c.items.len());
    assert(dec_cat(b, pos) == Some((CatV { ..c }, pos + enc_cat(c).len())));
}

#[verifier::rlimit(50)]
proof fn lemma_rt_cats(v: Seq<CatV>, b: Seq<u8>, pos: int)
    requires
        forall|i: int| 0 <= i < v.len() ==> cat_ok(#[trigger] v[i]),
        0 <= pos,
        pos + enc_cats(v).len() <= b.len(),
        b.subrange(pos, pos + enc_cats(v).len()) == enc_cats(v),
    ensures
        dec_cats(b, pos, v.len()) == Some((v, pos + enc_cats(v).len())),
    decreases v.len(),
{
    if v.len() == 0 {
        assert(v =~= Seq::<CatV>::empty());
    } else {
        let rest = v.drop_first();
        lemma_split_at(b, pos, enc_cat(v[0]), enc_cats(rest));
        lemma_rt_cat(v[0], b, pos);
        let p = pos + enc_cat(v[0]).len();
        assert forall|i: int| 0 <= i < rest.len() implies cat_ok(#[trigger] rest[i]) by {
            assert(rest[i] == v[i + 1]);
        }
        lemma_rt_cats(rest, b, p);
        assert(seq![v[0]] + rest =~= v);
    }
}

#[verifier::rlimit(50)]
proof fn lemma_rt_area(a: AreaV, b: Seq<u8>, pos: int)
    requires
        area_ok(a),
        0 <= pos,
        pos + enc_area(a).len() <= b.len(),
        b.subrange(pos, pos + enc_area(a).len()) == enc_area(a),
    ensures
        dec_area(b, pos) == Some((a, pos + enc_area(a).len())),
{
    lemma_auto_spec_u64_to_from_le_bytes();
    let e1 = seq![a.number];
    let e2 = enc_str(a.name);
    let e3 = enc_opt_str(a.description);
    let e4 = enc_u64(a.categories.len() as u64);
    let e5 = enc_cats(a.categories);
    lemma_split_at(b, pos, e1 + e2 + e3 + e4, e5);
    lemma_split_at(b, pos, e1 + e2 + e3, e4);
    lemma_split_at(b, pos, e1 + e2, e3);
    lemma_split_at(b, pos, e1, e2);
    let p1 = pos + e1.len();
    let p2 = p1 + e2.len();
    let p3 = p2 + e3.len();
    let p4 = p3 + e4.len();
    lemma_rt_u8(a.number, b, pos);
    lemma_rt_str(a.name, b, p1);
    lemma_rt_opt_str(a.description, b, p2);
    lemma_rt_u64(a.categories.len() as u64, b, p3);
    lemma_rt_cats(a.categories, b, p4);
    assert((a.categories.len() as u64) as nat == a.categories.len());
    assert(dec_area(b, pos) == Some((AreaV { ..a }, pos + enc_area(a).len())));
}

#[verifier::rlimit(50)]
proof fn lemma_rt_areas(v: Seq<AreaV>, b: Seq<u8>, pos: int)
    requires
        forall|i: int| 0 <= i < v.len() ==> area_ok(#[trigger] v[i]),
        0 <= pos,
        pos + enc_areas(v).len() <= b.len(),
        b.subrange(pos, pos + enc_areas(v).len()) == enc_areas(v),
    ensures
        dec_areas(b, pos, v.len()) == Some((v, pos + enc_areas(v).len())),
    decreases v.len(),
{
    if v.len() == 0 {
        assert(v =~= Seq::<AreaV>::empty());
    } else {
        let rest = v.drop_first();
        lemma_split_at(b, pos, enc_area(v[0]), enc_areas(rest));
        lemma_rt_area(v[0], b, pos);
        let p = pos + enc_area(v[0]).len();
        assert forall|i: int| 0 <= i < rest.len() implies area_ok(#[trigger] rest[i]) by {
            assert(rest[i] == v[i + 1]);
        }
        lemma_rt_areas(rest, b, p);
        assert(seq![v[0]] + rest =~= v);
    }
}

#[verifier::rlimit(50)]
proof fn lemma_rt_struct(s: StructV, b: Seq<u8>, pos: int)
    requires
        encodable(s),
        0 <= pos,
        pos + enc_struct(s).len() <= b.len(),
        b.subrange(pos, pos + enc_struct(s).len()) == enc_struct(s),
    ensures
        dec_struct(b, pos) == Some((s, pos + enc_struct(s).len())),
{
    lemma_auto_spec_u64_to_from_le_bytes();
    let e1 = enc_str(s.id);
    let e2 = enc_str(s.name);
    let e3 = enc_str(s.root_path);
    let e4 = enc_u64(s.created_at as u64);
    let e5 = enc_u64(s.modified_at as u64);
    let e6 = enc_u64(s.areas.len() as u64);
    let e7 = enc_areas(s.areas);
    lemma_split_at(b, pos, e1 + e2 + e3 + e4 + e5 + e6, e7);
    lemma_split_at(b, pos, e1 + e2 + e3 + e4 + e5, e6);
    lemma_split_at(b, pos, e1 + e2 + e3 + e4, e5);
    lemma_split_at(b, pos, e1 + e2 + e3, e4);
    lemma_split_at(b, pos, e1 + e2, e3);
    lemma_split_at(b, pos, e1, e2);
    let p1 = pos + e1.len();
    let p2 = p1 + e2.len();
    let p3 = p2 + e3.len();
    let p4 = p3 + e4.len();
    let p5 = p4 + e5.len();
    let p6 = p5 + e6.len();
    lemma_rt_str(s.id, b, pos);
    lemma_rt_str(s.name, b, p1);
    lemma_rt_str(s.root_path, b, p2);
    lemma_rt_u64(s.created_at as u64, b, p3);
    lemma_rt_u64(s.modified_at as u64, b, p4);
    lemma_rt_u64(s.areas.len() as u64, b, p5);
    lemma_rt_areas(s.areas, b, p6);
    let ct = s.created_at;
    let mt = s.modified_at;
    assert((ct as u64) as i64 == ct) by (bit_vector);
    assert((mt as u64) as i64 == mt) by (bit_vector);
    assert((s.areas.len() as u64) as nat == s.areas.len());
    assert(dec_struct(b, pos) == Some((StructV { ..s }, pos + enc_struct(s).len())));
}

/// Law: round-trip fidelity of the persistence format — decoding an
/// encoded structure yields the original, field for field, for every
/// structure whose strings and counts fit their length prefixes (every
/// structure a program can hold does).
pub proof fn lemma_structure_round_trip(s: StructV)
    requires
        encodable(s),
    ensures
        decode_structure_spec(enc_struct(s)) == Some(s),
{
    let b = enc_struct(s);
    assert(b.subrange(0, b.len() as int) =~= b);
    lemma_rt_struct(s, b, 0);
}

/// What the store decodes from a full byte record: a structure, when the
/// record decodes exactly and completely.
pub open spec fn decode_structure_spec(b: Seq<u8>) -> Option<StructV> {
    match dec_struct(b, 0) {
        Some((s, p)) => {
            if p == b.len() {
                Some(s)
            } else {
                None
            }
        },
        None => None,
    }
}

// ----- executable encoding -----

proof fn lemma_enc_strs_push(v: Seq<Seq<char>>, x: Seq<char>)
    ensures
        enc_strs(v.push(x)) == enc_strs(v) + enc_str(x),
    decreases v.len(),
{
    if v.len() == 0 {
        assert(v.push(x)[0] == x);
        assert(v.push(x).drop_first() =~= Seq::<Seq<char>>::empty());
        assert(enc_strs(v.push(x).drop_first()) == Seq::<u8>::empty());
        assert(enc_strs(v) == Seq::<u8>::empty());
        assert(enc_strs(v.push(x)) =~= enc_strs(v) + enc_str(x));
    } else {
        assert(v.push(x).drop_first() =~= v.drop_first().push(x));
        lemma_enc_strs_push(v.drop_first(), x);
        assert(enc_strs(v.push(x)) =~= enc_strs(v) + enc_str(x));
    }
}

proof fn lemma_enc_items_push(v: Seq<ItemV>, x: ItemV)
    ensures
        enc_items(v.push(x)) == enc_items(v) + enc_item(x),
    decreases v.len(),
{
    if v.len() == 0 {
        assert(v.push(x)[0] == x);
        assert(v.push(x).drop_first() =~= Seq::<ItemV>::empty());
        assert(enc_items(v.push(x).drop_first()) == Seq::<u8>::empty());
        assert(enc_items(v) == Seq::<u8>::empty());
        assert(enc_items(v.push(x)) =~= enc_items(v) + enc_item(x));
    } else {
        assert(v.push(x).drop_first() =~= v.drop_first().push(x));
        lemma_enc_items_push(v.drop_first(), x);
        assert(enc_items(v.push(x)) =~= enc_items(v) + enc_item(x));
    }
}

proof fn lemma_enc_cats_push(v: Seq<CatV>, x: CatV)
    ensures
        enc_cats(v.push(x)) == enc_cats(v) + enc_cat(x),
    decreases v.len(),
{
    if v.len() == 0 {
        assert(v.push(x)[0] == x);
        assert(v.push(x).drop_first() =~= Seq::<CatV>::empty());
        assert(enc_cats(v.push(x).drop_first()) == Seq::<u8>::empty());
        assert(enc_cats(v) == Seq::<u8>::empty());
        assert(enc_cats(v.push(x)) =~= enc_cats(v) + enc_cat(x));
    } else {
        assert(v.push(x).drop_first() =~= v.drop_first().push(x));
        lemma_enc_cats_push(v.drop_first(), x);
        assert(enc_cats(v.push(x)) =~= enc_cats(v) + enc_cat(x));
    }
}

proof fn lemma_enc_areas_push(v: Seq<AreaV>, x: AreaV)
    ensures
        enc_areas(v.push(x)) == enc_areas(v) + enc_area(x),
    decreases v.len(),
{
    if v.len() == 0 {
        assert(v.push(x)[0] == x);
        assert(v.push(x).drop_first() =~= Seq::<AreaV>::empty());
        assert(enc_areas(v.push(x).drop_first()) == Seq::<u8>::empty());
        assert(enc_areas(v) == Seq::<u8>::empty());
        assert(enc_areas(v.push(x)) =~= enc_areas(v) + enc_area(x));
    } else {
        assert(v.push(x).drop_first() =~= v.drop_first().push(x));
        lemma_enc_areas_push(v.drop_first(), x);
        assert(enc_areas(v.push(x)) =~= enc_areas(v) + enc_area(x));
    }
}

fn enc_push_u64(out: &mut Vec<u8>, x: u64)
    ensures
        final(out)@ == old(out)@ + enc_u64(x),
{
    let mut bytes = u64_to_le_bytes(x);
    out.append(&mut bytes);
}

fn enc_push_str(out: &mut Vec<u8>, s: &String)
    ensures
        final(out)@ == old(out)@ + enc_str(s@),
{
    let mut bytes = s.as_str().as_bytes_vec();
    enc_push_u64(out, bytes.len() as u64);
    out.append(&mut bytes);
}

fn enc_push_opt_str(out: &mut Vec<u8>, o: &Option<String>)
    ensures
        final(out)@ == old(out)@ + enc_opt_str(o.deep_view()),
{
    match o {
        None => {
            out.push(0);
            proof {
                assert(out@ =~= old(out)@ + enc_opt_str(o.deep_view()));
            }
        },
        Some(s) => {
            out.push(1);
            enc_push_str(out, s);
            proof {
                assert(out@ =~= old(out)@ + enc_opt_str(o.deep_view()));
            }
        },
    }
}

fn enc_push_item(out: &mut Vec<u8>, it: &JDItem)
    ensures
        final(out)@ == old(out)@ + enc_item(it@),
{
    enc_push_str(out, &it.number);
    enc_push_str(out, &it.name);
    enc_push_opt_str(out, &it.description);
    enc_push_u64(out, it.files.len() as u64);
    let n = it.files.len();
    let ghost base = out@;
    let mut k: usize = 0;
    proof {
        assert(it@.files.take(0) =~= Seq::<Seq<char>>::empty());
        assert(out@ =~= base + enc_strs(it@.files.take(0)));
    }
    while k < n
        invariant
            n == it.files@.len(),
            it@.files.len() == n,
            k <= n,
            out@ == base + enc_strs(it@.files.take(k as int)),
        decreases n - k,
    {
        enc_push_str(out, &it.files[k]);
        proof {
            assert(it@.files.take(k as int).push(it@.files[k as int]) =~= it@.files.take(
                k as int + 1,
            ));
            lemma_enc_strs_push(it@.files.take(k as int), it@.files[k as int]);
        }
        k += 1;
    }
    proof {
        assert(it@.files.take(n as int) =~= it@.files);
    }
}

fn enc_push_cat(out: &mut Vec<u8>, c: &JDCategory)
    ensures
        final(out)@ == old(out)@ + enc_cat(c@),
{
    out.push(c.number);
    enc_push_str(out, &c.name);
    enc_push_opt_str(out, &c.description);
    enc_push_u64(out, c.items.len() as u64);
    let n = c.items.len();
    let ghost base = out@;
    let mut k: usize = 0;
    proof {
        assert(c@.items.take(0) =~= Seq::<ItemV>::empty());
        assert(out@ =~= base + enc_items(c@.items.take(0)));
    }
    while k < n
        invariant
            n == c.items@.len(),
            c@.items.len() == n,
            k <= n,
            out@ == base + enc_items(c@.items.take(k as int)),
        decreases n - k,
    {
        enc_push_item(out, &c.items[k]);
        proof {
            assert(c@.items.take(k as int).push(c@.items[k as int]) =~= c@.items.take(
                k as int + 1,
            ));
            lemma_enc_items_push(c@.items.take(k as int), c@.items[k as int]);
        }
        k += 1;
    }
    proof {
        assert(c@.items.take(n as int) =~= c@.items);
        assert(out@ =~= old(out)@ + enc_cat(c@));
    }
}

fn enc_push_area(out: &mut Vec<u8>, a: &JDArea)
    ensures
        final(out)@ == old(out)@ + enc_area(a@),
{
    out.push(a.number);
    enc_push_str(out, &a.name);
    enc_push_opt_str(out, &a.description);
    enc_push_u64(out, a.categories.len() as u64);
    let n = a.categories.len();
    let ghost base = out@;
    let mut k: usize = 0;
    proof {
        assert(a@.categories.take(0) =~= Seq::<CatV>::empty());
        assert(out@ =~= base + enc_cats(a@.categories.take(0)));
    }
    while k < n
        invariant
            n == a.categories@.len(),
            a@.categories.len() == n,
            k <= n,
            out@ == base + enc_cats(a@.categories.take(k as int)),
        decreases n - k,
    {
        enc_push_cat(out, &a.categories[k]);
        proof {
            assert(a@.categories.take(k as int).push(a@.categories[k as int])
                =~= a@.categories.take(k as int + 1));
            lemma_enc_cats_push(a@.categories.take(k as int), a@.categories[k as int]);
        }
        k += 1;
    }
    proof {
        assert(a@.categories.take(n as int) =~= a@.categories);
        assert(out@ =~= old(out)@ + enc_area(a@));
    }
}

// ----- executable decoding -----

/// Turns UTF-8 bytes back into a string.
///
/// Relies on `String::from_utf8`: accepts exactly the valid UTF-8 byte
/// sequences and decodes them to the characters they encode.
#[verifier::external_body]
fn string_from_utf8(v: Vec<u8>) -> (r: Option<String>)
    ensures
        r matches Some(s) ==> valid_utf8(v@) && s@ == decode_utf8(v@),
        r is None ==> !valid_utf8(v@),
{
    String::from_utf8(v).ok()
}

fn dec_u8_exec(b: &Vec<u8>, pos: usize) -> (r: Option<(u8, usize)>)
    ensures
        match r {
            Some(t) => dec_u8(b@, pos as int) == Some((t.0, t.1 as int)),
            None => dec_u8(b@, pos as int) is None,
        },
{
    if pos < b.len() {
        Some((b[pos], pos + 1))
    } else {
        None
    }
}

fn dec_u64_exec(b: &Vec<u8>, pos: usize) -> (r: Option<(u64, usize)>)
    ensures
        match r {
            Some(t) => dec_u64(b@, pos as int) == Some((t.0, t.1 as int)),
            None => dec_u64(b@, pos as int) is None,
        },
{
    if b.len() >= 8 && pos <= b.len() - 8 {
        let sl = slice_subrange(b.as_slice(), pos, pos + 8);
        let x = u64_from_le_bytes(sl);
        Some((x, pos + 8))
    } else {
        None
    }
}

fn dec_str_exec(b: &Vec<u8>, pos: usize) -> (r: Option<(String, usize)>)
    ensures
        match r {
            Some(t) => (dec_str(b@, pos as int) matches Some(sp) && sp.0 == t.0@ && sp.1 == t.1
                as int),
            None => dec_str(b@, pos as int) is None,
        },
{
    match dec_u64_exec(b, pos) {
        Some((n, p)) => {
            let rem = b.len() - p;
            if n <= rem as u64 {
                let nn = n as usize;
                let sl = slice_subrange(b.as_slice(), p, p + nn);
                let bytes = slice_to_vec(sl);
                match string_from_utf8(bytes) {
                    Some(s) => Some((s, p + nn)),
                    None => None,
                }
            } else {
                None
            }
        },
        None => None,
    }
}

fn dec_opt_str_exec(b: &Vec<u8>, pos: usize) -> (r: Option<(Option<String>, usize)>)
    ensures
        match r {
            Some(t) => (dec_opt_str(b@, pos as int) matches Some(sp) && sp.0 == t.0.deep_view()
                && sp.1 == t.1 as int),
            None => dec_opt_str(b@, pos as int) is None,
        },
{
    match dec_u8_exec(b, pos) {
        Some((tag, p)) => {
            if tag == 0 {
                Some((None, p))
            } else if tag == 1 {
                match dec_str_exec(b, p) {
                    Some((s, p2)) => Some((Some(s), p2)),
                    None => None,
                }
            } else {
                None
            }
        },
        None => None,
    }
}

fn dec_strs_exec(b: &Vec<u8>, pos: usize, n: u64) -> (r: Option<(Vec<String>, usize)>)
    ensures
        match r {
            Some(t) => (dec_strs(b@, pos as int, n as nat) matches Some(sp) && sp.0
                == t.0.deep_view() && sp.1 == t.1 as int),
            None => dec_strs(b@, pos as int, n as nat) is None,
        },
{
    let mut out: Vec<String> = Vec::new();
    let mut cur: usize = pos;
    let mut i: u64 = 0;
    proof {
        assert(out.deep_view() =~= Seq::<Seq<char>>::empty());
    }
    while i < n
        invariant
            i <= n,
            (match dec_strs(b@, cur as int, (n - i) as nat) {
                Some(sp) => dec_strs(b@, pos as int, n as nat) == Some(
                    (out.deep_view() + sp.0, sp.1),
                ),
                None => dec_strs(b@, pos as int, n as nat) is None,
            }),
        decreases n - i,
    {
        let ghost out0 = out.deep_view();
        match dec_str_exec(b, cur) {
            Some((s, p2)) => {
                let ghost sv = s@;
                out.push(s);
                proof {
                    assert(out.deep_view() =~= out0.push(sv));
                    if let Some((v, pe)) = dec_strs(b@, p2 as int, (n - i - 1) as nat) {
                        assert(out0 + (seq![sv] + v) =~= out0.push(sv) + v);
                    }
                }
                cur = p2;
            },
            None => {
                return None;
            },
        }
        i += 1;
    }
    proof {
        assert(out.deep_view() + Seq::<Seq<char>>::empty() =~= out.deep_view());
    }
    Some((out, cur))
}

fn dec_item_exec(b: &Vec<u8>, pos: usize) -> (r: Option<(JDItem, usize)>)
    ensures
        match r {
            Some(t) => (dec_item(b@, pos as int) matches Some(sp) && sp.0 == t.0@ && sp.1 == t.1
                as int),
            None => dec_item(b@, pos as int) is None,
        },
{
    match dec_str_exec(b, pos) {
        Some((number, p1)) => match dec_str_exec(b, p1) {
            Some((name, p2)) => match dec_opt_str_exec(b, p2) {
                Some((description, p3)) => match dec_u64_exec(b, p3) {
                    Some((n, p4)) => match dec_strs_exec(b, p4, n) {
                        Some((files, p5)) => Some(
                            (JDItem { number, name, description, files }, p5),
                        ),
                        None => None,
                    },
                    None => None,
                },
                None => None,
            },
            None => None,
        },
        None => None,
    }
}

fn dec_items_exec(b: &Vec<u8>, pos: usize, n: u64) -> (r: Option<(Vec<JDItem>, usize)>)
    ensures
        match r {
            Some(t) => (dec_items(b@, pos as int, n as nat) matches Some(sp) && sp.0
                == t.0.deep_view() && sp.1 == t.1 as int),
            None => dec_items(b@, pos as int, n as nat) is None,
        },
{
    let mut out: Vec<JDItem> = Vec::new();
    let mut cur: usize = pos;
    let mut i: u64 = 0;
    proof {
        assert(out.deep_view() =~= Seq::<ItemV>::empty());
    }
    while i < n
        invariant
            i <= n,
            (match dec_items(b@, cur as int, (n - i) as nat) {
                Some(sp) => dec_items(b@, pos as int, n as nat) == Some(
                    (out.deep_view() + sp.0, sp.1),
                ),
                None => dec_items(b@, pos as int, n as nat) is None,
            }),
        decreases n - i,
    {
        let ghost out0 = out.deep_view();
        match dec_item_exec(b, cur) {
            Some((it, p2)) => {
                let ghost iv = it@;
                out.push(it);
                proof {
                    assert(out.deep_view() =~= out0.push(iv));
                    if let Some((v, pe)) = dec_items(b@, p2 as int, (n - i - 1) as nat) {
                        assert(out0 + (seq![iv] + v) =~= out0.push(iv) + v);
                    }
                }
                cur = p2;
            },
            None => {
                return None;
            },
        }
        i += 1;
    }
    proof {
        assert(out.deep_view() + Seq::<ItemV>::empty() =~= out.deep_view());
    }
    Some((out, cur))
}

fn dec_cat_exec(b: &Vec<u8>, pos: usize) -> (r: Option<(JDCategory, usize)>)
    ensures
        match r {
            Some(t) => (dec_cat(b@, pos as int) matches Some(sp) && sp.0 == t.0@ && sp.1 == t.1
                as int),
            None => dec_cat(b@, pos as int) is None,
        },
{
    match dec_u8_exec(b, pos) {
        Some((number, p0)) => match dec_str_exec(b, p0) {
            Some((name, p1)) => match dec_opt_str_exec(b, p1) {
                Some((description, p2)) => match dec_u64_exec(b, p2) {
                    Some((n, p3)) => match dec_items_exec(b, p3, n) {
                        Some((items, p4)) => Some(
                            (JDCategory { number, name, description, items }, p4),
                        ),
                        None => None,
                    },
                    None => None,
                },
                None => None,
            },
            None => None,
        },
        None => None,
    }
}

fn dec_cats_exec(b: &Vec<u8>, pos: usize, n: u64) -> (r: Option<(Vec<JDCategory>, usize)>)
    ensures
        match r {
            Some(t) => (dec_cats(b@, pos as int, n as nat) matches Some(sp) && sp.0
                == t.0.deep_view() && sp.1 == t.1 as int),
            None => dec_cats(b@, pos as int, n as nat) is None,
        },
{
    let mut out: Vec<JDCategory> = Vec::new();
    let mut cur: usize = pos;
    let mut i: u64 = 0;
    proof {
        assert(out.deep_view() =~= Seq::<CatV>::empty());
    }
    while i < n
        invariant
            i <= n,
            (match dec_cats(b@, cur as int, (n - i) as nat) {
                Some(sp) => dec_cats(b@, pos as int, n as nat) == Some(
                    (out.deep_view() + sp.0, sp.1),
                ),
                None => dec_cats(b@, pos as int, n as nat) is None,
            }),
        decreases n - i,
    {
        let ghost out0 = out.deep_view();
        match dec_cat_exec(b, cur) {
            Some((c, p2)) => {
                let ghost cv = c@;
                out.push(c);
                proof {
                    assert(out.deep_view() =~= out0.push(cv));
                    if let Some((v, pe)) = dec_cats(b@, p2 as int, (n - i - 1) as nat) {
                        assert(out0 + (seq![cv] + v) =~= out0.push(cv) + v);
                    }
                }
                cur = p2;
            },
            None => {
                return None;
            },
        }
        i += 1;
    }
    proof {
        assert(out.deep_view() + Seq::<CatV>::empty() =~= out.deep_view());
    }
    Some((out, cur))
}

fn dec_area_exec(b: &Vec<u8>, pos: usize) -> (r: Option<(JDArea, usize)>)
    ensures
        match r {
            Some(t) => (dec_area(b@, pos as int) matches Some(sp) && sp.0 == t.0@ && sp.1 == t.1
                as int),
            None => dec_area(b@, pos as int) is None,
        },
{
    match dec_u8_exec(b, pos) {
        Some((number, p0)) => match dec_str_exec(b, p0) {
            Some((name, p1)) => match dec_opt_str_exec(b, p1) {
                Some((description, p2)) => match dec_u64_exec(b, p2) {
                    Some((n, p3)) => match dec_cats_exec(b, p3, n) {
                        Some((categories, p4)) => Some(
                            (JDArea { number, name, description, categories }, p4),
                        ),
                        None => None,
                    },
                    None => None,
                },
                None => None,
            },
            None => None,
        },
        None => None,
    }
}

fn dec_areas_exec(b: &Vec<u8>, pos: usize, n: u64) -> (r: Option<(Vec<JDArea>, usize)>)
    ensures
        match r {
            Some(t) => (dec_areas(b@, pos as int, n as nat) matches Some(sp) && sp.0
                == t.0.deep_view() && sp.1 == t.1 as int),
            None => dec_areas(b@, pos as int, n as nat) is None,
        },
{
    let mut out: Vec<JDArea> = Vec::new();
    let mut cur: usize = pos;
    let mut i: u64 = 0;
    proof {
        assert(out.deep_view() =~= Seq::<AreaV>::empty());
    }
    while i < n
        invariant
            i <= n,
            (match dec_areas(b@, cur as int, (n - i) as nat) {
                Some(sp) => dec_areas(b@, pos as int, n as nat) == Some(
                    (out.deep_view() + sp.0, sp.1),
                ),
                None => dec_areas(b@, pos as int, n as nat) is None,
            }),
        decreases n - i,
    {
        let ghost out0 = out.deep_view();
        match dec_area_exec(b, cur) {
            Some((a, p2)) => {
                let ghost av = a@;
                out.push(a);
                proof {
                    assert(out.deep_view() =~= out0.push(av));
                    if let Some((v, pe)) = dec_areas(b@, p2 as int, (n - i - 1) as nat) {
                        assert(out0 + (seq![av] + v) =~= out0.push(av) + v);
                    }
                }
                cur = p2;
            },
            None => {
                return None;
            },
        }
        i += 1;
    }
    proof {
        assert(out.deep_view() + Seq::<AreaV>::empty() =~= out.deep_view());
    }
    Some((out, cur))
}

/// Decodes one full persistence record back into a structure; the record
/// must decode exactly and completely.
pub fn decode_structure(bytes: &Vec<u8>) -> (r: Option<JDStructure>)
    ensures
        match r {
            Some(st) => (decode_structure_spec(bytes@) matches Some(v) && st@ == v),
            None => decode_structure_spec(bytes@) is None,
        },
{
    match dec_str_exec(bytes, 0) {
        Some((id, p1)) => match dec_str_exec(bytes, p1) {
            Some((name, p2)) => match dec_str_exec(bytes, p2) {
                Some((root_path, p3)) => match dec_u64_exec(bytes, p3) {
                    Some((created, p4)) => match dec_u64_exec(bytes, p4) {
                        Some((modified, p5)) => match dec_u64_exec(bytes, p5) {
                            Some((n, p6)) => match dec_areas_exec(bytes, p6, n) {
                                Some((areas, p7)) => {
                                    if p7 == bytes.len() {
                                        let created_at: i64 = #[verifier::truncate] (created
                                        as i64);
                                        let modified_at: i64 = #[verifier::truncate] (modified
                                        as i64);
                                        Some(
                                            JDStructure {
                                                id,
                                                name,
                                                root_path,
                                                areas,
                                                created_at,
                                                modified_at,
                                            },
                                        )
                                    } else {
                                        None
                                    }
                                },
                                None => None,
                            },
                            None => None,
                        },
                        None => None,
                    },
                    None => None,
                },
                None => None,
            },
            None => None,
        },
        None => None,
    }
}

/// Encodes a structure into the persistence format.
pub fn encode_structure(s: &JDStructure) -> (r: Vec<u8>)
    ensures
        r@ == enc_struct(s@),
{
    let mut out: Vec<u8> = Vec::new();
    enc_push_str(&mut out, &s.id);
    enc_push_str(&mut out, &s.name);
    enc_push_str(&mut out, &s.root_path);
    enc_push_u64(&mut out, s.created_at as u64);
    enc_push_u64(&mut out, s.modified_at as u64);
    enc_push_u64(&mut out, s.areas.len() as u64);
    let n = s.areas.len();
    let ghost base = out@;
    let mut k: usize = 0;
    proof {
        assert(s@.areas.take(0) =~= Seq::<AreaV>::empty());
        assert(out@ =~= base + enc_areas(s@.areas.take(0)));
    }
    while k < n
        invariant
            n == s.areas@.len(),
            s@.areas.len() == n,
            k <= n,
            out@ == base + enc_areas(s@.areas.take(k as int)),
        decreases n - k,
    {
        enc_push_area(&mut out, &s.areas[k]);
        proof {
            assert(s@.areas.take(k as int).push(s@.areas[k as int]) =~= s@.areas.take(
                k as int + 1,
            ));
            lemma_enc_areas_push(s@.areas.take(k as int), s@.areas[k as int]);
        }
        k += 1;
    }
    proof {
        assert(s@.areas.take(n as int) =~= s@.areas);
        assert(out@ =~= enc_struct(s@));
    }
    out
}

} // verus!
