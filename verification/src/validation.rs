//! The structure validator: checks a taxonomy against its numbering rules
//! and reports every violation as data. Errors make the structure invalid;
//! warnings never do. Areas, categories and items are visited in stored
//! order, so reports are reproducible.

use vstd::prelude::*;
use vstd::string::*;
use crate::johnny_decimal::{item_number_v, item_number_string, JohnnyDecimalEngine};
use crate::model::{
    AreaV, CatV, ErrV, ItemV, JDArea, JDCategory, JDItem, JDStructure, JDValidationError,
    JDValidationResult, JDValidationWarning, RepV, StructV, WarnV,
};
use crate::text::{dec_digits, str_eq, u8_to_string, usize_to_string};

verus! {

/// Whether an area number is allowed: a multiple of ten from 10 to 90.
pub open spec fn area_number_valid(n: u8) -> bool {
    n % 10 == 0 && 10 <= n && n <= 90
}

/// Whether a category number lies inside its area's decade.
pub open spec fn cat_number_in_area(a: u8, c: u8) -> bool {
    a <= c && (c as int) < a as int + 10
}

pub open spec fn invalid_area_error_v(n: u8) -> ErrV {
    ErrV {
        error_type: "invalid_area_number"@,
        message: "Area number "@ + dec_digits(n as nat)
            + " is invalid. Must be 10, 20, 30, ..., 90"@,
        area_number: Some(n),
        category_number: None,
    }
}

pub open spec fn duplicate_area_error_v(n: u8) -> ErrV {
    ErrV {
        error_type: "duplicate_area_number"@,
        message: "Area number "@ + dec_digits(n as nat) + " is used multiple times"@,
        area_number: Some(n),
        category_number: None,
    }
}

pub open spec fn invalid_category_error_v(a: u8, c: u8) -> ErrV {
    ErrV {
        error_type: "invalid_category_number"@,
        message: "Category number "@ + dec_digits(c as nat)
            + " is outside valid range for area "@ + dec_digits(a as nat) + " ("@ + dec_digits(
            a as nat,
        ) + "-"@ + dec_digits(a as nat + 9) + ")"@,
        area_number: Some(a),
        category_number: Some(c),
    }
}

pub open spec fn duplicate_category_error_v(a: u8, c: u8) -> ErrV {
    ErrV {
        error_type: "duplicate_category_number"@,
        message: "Category number "@ + dec_digits(c as nat) + " is used multiple times"@,
        area_number: Some(a),
        category_number: Some(c),
    }
}

pub open spec fn item_numbering_warning_v(number: Seq<char>, expected: Seq<char>) -> WarnV {
    WarnV {
        warning_type: "item_numbering"@,
        message: "Item number "@ + number + " should be "@ + expected
            + " for sequential numbering"@,
        suggestion: Some("Renumber to "@ + expected),
    }
}

pub open spec fn too_many_items_warning_v(c: u8, count: nat) -> WarnV {
    WarnV {
        warning_type: "too_many_items"@,
        message: "Category "@ + dec_digits(c as nat) + " has "@ + dec_digits(count)
            + " items. Consider splitting into multiple categories."@,
        suggestion: Some("Split large categories for better organization"@),
    }
}

pub open spec fn empty_area_warning_v(n: u8) -> WarnV {
    WarnV {
        warning_type: "empty_area"@,
        message: "Area "@ + dec_digits(n as nat) + " has no categories"@,
        suggestion: Some("Consider removing empty areas or adding categories"@),
    }
}

/// The numbers of a sequence of categories, in order.
pub open spec fn cat_numbers(cats: Seq<CatV>) -> Seq<u8> {
    cats.map_values(|c: CatV| c.number)
}

/// The errors raised while visiting `cats` inside area `a`, with `seen_c`
/// the category numbers already seen anywhere in the structure.
pub open spec fn cat_errors(a: u8, cats: Seq<CatV>, seen_c: Seq<u8>) -> Seq<ErrV>
    decreases cats.len(),
{
    if cats.len() == 0 {
        Seq::empty()
    } else {
        let c = cats[0].number;
        let e1: Seq<ErrV> = if !cat_number_in_area(a, c) {
            seq![invalid_category_error_v(a, c)]
        } else {
            Seq::empty()
        };
        let e2: Seq<ErrV> = if seen_c.contains(c) {
            seq![duplicate_category_error_v(a, c)]
        } else {
            Seq::empty()
        };
        e1 + e2 + cat_errors(a, cats.drop_first(), seen_c.push(c))
    }
}

/// The errors raised while visiting one area.
pub open spec fn area_errors(area: AreaV, seen_a: Seq<u8>, seen_c: Seq<u8>) -> Seq<ErrV> {
    let e1: Seq<ErrV> = if !area_number_valid(area.number) {
        seq![invalid_area_error_v(area.number)]
    } else {
        Seq::empty()
    };
    let e2: Seq<ErrV> = if seen_a.contains(area.number) {
        seq![duplicate_area_error_v(area.number)]
    } else {
        Seq::empty()
    };
    e1 + e2 + cat_errors(area.number, area.categories, seen_c)
}

/// All errors of a structure, visiting areas in stored order.
pub open spec fn structure_errors(areas: Seq<AreaV>, seen_a: Seq<u8>, seen_c: Seq<u8>) -> Seq<
    ErrV,
>
    decreases areas.len(),
{
    if areas.len() == 0 {
        Seq::empty()
    } else {
        area_errors(areas[0], seen_a, seen_c) + structure_errors(
            areas.drop_first(),
            seen_a.push(areas[0].number),
            seen_c + cat_numbers(areas[0].categories),
        )
    }
}

/// Warnings for the items of one category, starting at zero-based
/// position `pos`.
pub open spec fn item_warnings(c: u8, items: Seq<ItemV>, pos: nat) -> Seq<WarnV>
    decreases items.len(),
{
    if items.len() == 0 {
        Seq::empty()
    } else {
        let w: Seq<WarnV> = if items[0].number != item_number_v(c, pos + 1) {
            seq![item_numbering_warning_v(items[0].number, item_number_v(c, pos + 1))]
        } else {
            Seq::empty()
        };
        w + item_warnings(c, items.drop_first(), pos + 1)
    }
}

/// Warnings for one category: item numbering, then an oversize note.
pub open spec fn cat_warnings(cat: CatV) -> Seq<WarnV> {
    item_warnings(cat.number, cat.items, 0) + (if cat.items.len() > 99 {
        seq![too_many_items_warning_v(cat.number, cat.items.len())]
    } else {
        Seq::empty()
    })
}

/// Warnings for a sequence of categories, in order.
pub open spec fn cats_warnings(cats: Seq<CatV>) -> Seq<WarnV>
    decreases cats.len(),
{
    if cats.len() == 0 {
        Seq::empty()
    } else {
        cat_warnings(cats[0]) + cats_warnings(cats.drop_first())
    }
}

/// Warnings for one area: its categories' warnings, then an emptiness
/// note.
pub open spec fn area_warnings(area: AreaV) -> Seq<WarnV> {
    cats_warnings(area.categories) + (if area.categories.len() == 0 {
        seq![empty_area_warning_v(area.number)]
    } else {
        Seq::empty()
    })
}

/// All warnings of a structure, visiting areas in stored order.
pub open spec fn structure_warnings(areas: Seq<AreaV>) -> Seq<WarnV>
    decreases areas.len(),
{
    if areas.len() == 0 {
        Seq::empty()
    } else {
        area_warnings(areas[0]) + structure_warnings(areas.drop_first())
    }
}

/// The full report for a structure. The structure is valid exactly when
/// no error was raised; warnings never affect validity.
pub open spec fn validate_spec(s: StructV) -> RepV {
    let errors = structure_errors(s.areas, Seq::empty(), Seq::empty());
    RepV {
        is_valid: errors.len() == 0,
        errors,
        warnings: structure_warnings(s.areas),
    }
}

/// Whether `x` occurs in the vector.
fn vec_contains_u8(v: &Vec<u8>, x: u8) -> (r: bool)
    ensures
        r == v@.contains(x),
{
    let len = v.len();
    let mut k: usize = 0;
    while k < len
        invariant
            len == v@.len(),
            k <= len,
            forall|j: int| 0 <= j < k ==> v@[j] != x,
        decreases len - k,
    {
        if v[k] == x {
            return true;
        }
        k += 1;
    }
    false
}

fn invalid_area_error(n: u8) -> (r: JDValidationError)
    ensures
        r@ == invalid_area_error_v(n),
{
    let mut message = String::from_str("Area number ");
    let num = u8_to_string(n);
    message.append(num.as_str());
    message.append(" is invalid. Must be 10, 20, 30, ..., 90");
    JDValidationError {
        error_type: String::from_str("invalid_area_number"),
        message,
        area_number: Some(n),
        category_number: None,
    }
}

fn duplicate_area_error(n: u8) -> (r: JDValidationError)
    ensures
        r@ == duplicate_area_error_v(n),
{
    let mut message = String::from_str("Area number ");
    let num = u8_to_string(n);
    message.append(num.as_str());
    message.append(" is used multiple times");
    JDValidationError {
        error_type: String::from_str("duplicate_area_number"),
        message,
        area_number: Some(n),
        category_number: None,
    }
}

fn invalid_category_error(a: u8, c: u8) -> (r: JDValidationError)
    ensures
        r@ == invalid_category_error_v(a, c),
{
    let mut message = String::from_str("Category number ");
    let cn = u8_to_string(c);
    message.append(cn.as_str());
    message.append(" is outside valid range for area ");
    let an = u8_to_string(a);
    message.append(an.as_str());
    message.append(" (");
    message.append(an.as_str());
    message.append("-");
    let hi = crate::text::u64_to_string(a as u64 + 9);
    message.append(hi.as_str());
    message.append(")");
    JDValidationError {
        error_type: String::from_str("invalid_category_number"),
        message,
        area_number: Some(a),
        category_number: Some(c),
    }
}

fn duplicate_category_error(a: u8, c: u8) -> (r: JDValidationError)
    ensures
        r@ == duplicate_category_error_v(a, c),
{
    let mut message = String::from_str("Category number ");
    let cn = u8_to_string(c);
    message.append(cn.as_str());
    message.append(" is used multiple times");
    JDValidationError {
        error_type: String::from_str("duplicate_category_number"),
        message,
        area_number: Some(a),
        category_number: Some(c),
    }
}

fn item_numbering_warning(number: &str, expected: &str) -> (r: JDValidationWarning)
    ensures
        r@ == item_numbering_warning_v(number@, expected@),
{
    let mut message = String::from_str("Item number ");
    message.append(number);
    message.append(" should be ");
    message.append(expected);
    message.append(" for sequential numbering");
    let mut suggestion = String::from_str("Renumber to ");
    suggestion.append(expected);
    JDValidationWarning {
        warning_type: String::from_str("item_numbering"),
        message,
        suggestion: Some(suggestion),
    }
}

fn too_many_items_warning(c: u8, count: usize) -> (r: JDValidationWarning)
    ensures
        r@ == too_many_items_warning_v(c, count as nat),
{
    let mut message = String::from_str("Category ");
    let cn = u8_to_string(c);
    message.append(cn.as_str());
    message.append(" has ");
    let cc = usize_to_string(count);
    message.append(cc.as_str());
    message.append(" items. Consider splitting into multiple categories.");
    JDValidationWarning {
        warning_type: String::from_str("too_many_items"),
        message,
        suggestion: Some(String::from_str("Split large categories for better organization")),
    }
}

fn empty_area_warning(n: u8) -> (r: JDValidationWarning)
    ensures
        r@ == empty_area_warning_v(n),
{
    let mut message = String::from_str("Area ");
    let num = u8_to_string(n);
    message.append(num.as_str());
    message.append(" has no categories");
    JDValidationWarning {
        warning_type: String::from_str("empty_area"),
        message,
        suggestion: Some(String::from_str("Consider removing empty areas or adding categories")),
    }
}

impl JohnnyDecimalEngine {
    /// Validates a structure and reports every violation, without
    /// changing the structure. Pure: the report is a function of the
    /// structure alone, so validating twice yields identical reports.
    pub fn validate_structure(&self, structure: &JDStructure) -> (r: JDValidationResult)
        ensures
            r@ == validate_spec(structure@),
    {
        let ghost all = structure.areas.deep_view();
        let mut errors: Vec<JDValidationError> = Vec::new();
        let mut warnings: Vec<JDValidationWarning> = Vec::new();
        let mut seen_a: Vec<u8> = Vec::new();
        let mut seen_c: Vec<u8> = Vec::new();
        let n = structure.areas.len();
        proof {
            assert(all.skip(0) =~= all);
            assert(errors.deep_view() + structure_errors(all.skip(0), seen_a@, seen_c@)
                =~= structure_errors(all, Seq::empty(), Seq::empty()));
            assert(warnings.deep_view() + structure_warnings(all.skip(0)) =~= structure_warnings(
                all,
            ));
        }
        let mut i: usize = 0;
        while i < n
            invariant
                n == structure.areas@.len(),
                all == structure.areas.deep_view(),
                all.len() == n,
                i <= n,
                errors.deep_view() + structure_errors(all.skip(i as int), seen_a@, seen_c@)
                    == structure_errors(all, Seq::empty(), Seq::empty()),
                warnings.deep_view() + structure_warnings(all.skip(i as int))
                    == structure_warnings(all),
            decreases n - i,
        {
            let ghost errors0 = errors.deep_view();
            let ghost warnings0 = warnings.deep_view();
            let ghost seen_a0 = seen_a@;
            let ghost seen_c0 = seen_c@;
            let area = &structure.areas[i];
            proof {
                assert(area@ == all[i as int]);
                assert(all.skip(i as int).drop_first() =~= all.skip(i as int + 1));
                assert(all.skip(i as int)[0] == all[i as int]);
            }
            // Area number checks.
            if !(area.number % 10 == 0 && 10 <= area.number && area.number <= 90) {
                let e = invalid_area_error(area.number);
                errors.push(e);
            }
            if vec_contains_u8(&seen_a, area.number) {
                let e = duplicate_area_error(area.number);
                errors.push(e);
            }
            seen_a.push(area.number);
            proof {
                let e1: Seq<ErrV> = if !area_number_valid(area@.number) {
                    seq![invalid_area_error_v(area@.number)]
                } else {
                    Seq::<ErrV>::empty()
                };
                let e2: Seq<ErrV> = if seen_a0.contains(area@.number) {
                    seq![duplicate_area_error_v(area@.number)]
                } else {
                    Seq::<ErrV>::empty()
                };
                assert(errors.deep_view() =~= errors0 + e1 + e2);
            }
            // Category checks.
            let m = area.categories.len();
            let ghost errors1 = errors.deep_view();
            proof {
                assert(area@.categories.skip(0) =~= area@.categories);
                assert(cat_numbers(area@.categories.take(0)) =~= Seq::<u8>::empty());
                assert(seen_c@ =~= seen_c0 + cat_numbers(area@.categories.take(0)));
            }
            let mut j: usize = 0;
            while j < m
                invariant
                    m == area.categories@.len(),
                    area@.categories.len() == m,
                    j <= m,
                    errors.deep_view() + cat_errors(
                        area@.number,
                        area@.categories.skip(j as int),
                        seen_c@,
                    ) == errors1 + cat_errors(area@.number, area@.categories, seen_c0),
                    seen_c@ == seen_c0 + cat_numbers(area@.categories.take(j as int)),
                decreases m - j,
            {
                let ghost errors_j = errors.deep_view();
                let ghost seen_cj = seen_c@;
                let cat = &area.categories[j];
                proof {
                    assert(cat@ == area@.categories[j as int]);
                    assert(area@.categories.skip(j as int).drop_first() =~= area@.categories.skip(
                        j as int + 1,
                    ));
                    assert(area@.categories.skip(j as int)[0] == area@.categories[j as int]);
                }
                let in_range = area.number <= cat.number && (cat.number as u16) < (
                area.number as u16) + 10;
                proof {
                    assert(in_range == cat_number_in_area(area@.number, cat@.number));
                }
                if !in_range {
                    let e = invalid_category_error(area.number, cat.number);
                    errors.push(e);
                }
                if vec_contains_u8(&seen_c, cat.number) {
                    let e = duplicate_category_error(area.number, cat.number);
                    errors.push(e);
                }
                seen_c.push(cat.number);
                proof {
                    let c = cat@.number;
                    let e1: Seq<ErrV> = if !cat_number_in_area(area@.number, c) {
                        seq![invalid_category_error_v(area@.number, c)]
                    } else {
                        Seq::<ErrV>::empty()
                    };
                    let e2: Seq<ErrV> = if seen_cj.contains(c) {
                        seq![duplicate_category_error_v(area@.number, c)]
                    } else {
                        Seq::<ErrV>::empty()
                    };
                    assert(errors.deep_view() =~= errors_j + e1 + e2);
                    assert(seen_c@ =~= seen_cj.push(c));
                    assert(cat_numbers(area@.categories.take(j as int + 1)) =~= cat_numbers(
                        area@.categories.take(j as int),
                    ).push(c));
                    assert(seen_c@ =~= seen_c0 + cat_numbers(
                        area@.categories.take(j as int + 1),
                    ));
                }
                j += 1;
            }
            proof {
                assert(area@.categories.skip(m as int) =~= Seq::<CatV>::empty());
                assert(area@.categories.take(m as int) =~= area@.categories);
                assert(errors.deep_view() =~= errors0 + area_errors(area@, seen_a0, seen_c0));
                assert(seen_c@ =~= seen_c0 + cat_numbers(area@.categories));
            }
            // Warnings for this area's categories and items.
            proof {
                assert(area@.categories.skip(0) =~= area@.categories);
            }
            let mut j2: usize = 0;
            while j2 < m
                invariant
                    m == area.categories@.len(),
                    area@.categories.len() == m,
                    j2 <= m,
                    warnings.deep_view() + cats_warnings(area@.categories.skip(j2 as int))
                        == warnings0 + cats_warnings(area@.categories),
                decreases m - j2,
            {
                let ghost warnings_j = warnings.deep_view();
                let cat = &area.categories[j2];
                proof {
                    assert(cat@ == area@.categories[j2 as int]);
                    assert(area@.categories.skip(j2 as int).drop_first() =~= area@.categories.skip(
                        j2 as int + 1,
                    ));
                    assert(area@.categories.skip(j2 as int)[0] == area@.categories[j2 as int]);
                }
                let mi = cat.items.len();
                let ghost warnings_k0 = warnings.deep_view();
                proof {
                    assert(cat@.items.skip(0) =~= cat@.items);
                }
                let mut k: usize = 0;
                while k < mi
                    invariant
                        mi == cat.items@.len(),
                        cat@.items.len() == mi,
                        k <= mi,
                        warnings.deep_view() + item_warnings(
                            cat@.number,
                            cat@.items.skip(k as int),
                            k as nat,
                        ) == warnings_k0 + item_warnings(cat@.number, cat@.items, 0),
                    decreases mi - k,
                {
                    let ghost warnings_k = warnings.deep_view();
                    let item = &cat.items[k];
                    proof {
                        assert(item@ == cat@.items[k as int]);
                        assert(cat@.items.skip(k as int).drop_first() =~= cat@.items.skip(
                            k as int + 1,
                        ));
                        assert(cat@.items.skip(k as int)[0] == cat@.items[k as int]);
                    }
                    let expected = item_number_string(cat.number, k + 1);
                    if !str_eq(item.number.as_str(), expected.as_str()) {
                        let w = item_numbering_warning(item.number.as_str(), expected.as_str());
                        warnings.push(w);
                        proof {
                            assert(warnings.deep_view() =~= warnings_k + seq![
                                item_numbering_warning_v(
                                    item@.number,
                                    item_number_v(cat@.number, k as nat + 1),
                                ),
                            ]);
                        }
                    }
                    k += 1;
                }
                proof {
                    assert(cat@.items.skip(mi as int) =~= Seq::<ItemV>::empty());
                    assert(warnings.deep_view() + item_warnings(
                        cat@.number,
                        cat@.items.skip(mi as int),
                        mi as nat,
                    ) =~= warnings.deep_view());
                    assert(warnings.deep_view() =~= warnings_k0 + item_warnings(
                        cat@.number,
                        cat@.items,
                        0,
                    ));
                }
                if mi > 99 {
                    let w = too_many_items_warning(cat.number, mi);
                    let ghost wv = w@;
                    let ghost before = warnings.deep_view();
                    warnings.push(w);
                    proof {
                        assert(wv == too_many_items_warning_v(cat@.number, cat@.items.len()));
                        assert(warnings.deep_view() =~= before.push(wv));
                        assert(cat_warnings(cat@) =~= item_warnings(
                            cat@.number,
                            cat@.items,
                            0,
                        ).push(too_many_items_warning_v(cat@.number, cat@.items.len())));
                        assert(warnings.deep_view() =~= warnings_j + cat_warnings(cat@));
                    }
                } else {
                    proof {
                        assert(cat_warnings(cat@) =~= item_warnings(cat@.number, cat@.items, 0));
                        assert(warnings.deep_view() =~= warnings_j + cat_warnings(cat@));
                    }
                }
                j2 += 1;
            }
            proof {
                assert(area@.categories.skip(m as int) =~= Seq::<CatV>::empty());
            }
            if m == 0 {
                let w = empty_area_warning(area.number);
                warnings.push(w);
            }
            proof {
                assert(warnings.deep_view() =~= warnings0 + area_warnings(area@));
                assert(seen_a@ =~= seen_a0.push(area@.number));
            }
            i += 1;
        }
        proof {
            assert(all.skip(n as int) =~= Seq::<AreaV>::empty());
            assert(errors.deep_view() =~= structure_errors(all, Seq::empty(), Seq::empty()));
            assert(warnings.deep_view() =~= structure_warnings(all));
        }
        let is_valid = errors.len() == 0;
        JDValidationResult { is_valid, errors, warnings }
    }
}

} // verus!
