//! Laws of the library, each stated as a public proof function: the
//! builder's output always passes the validator with no errors and no
//! warnings, the validator is idempotent, and a file whose extension is
//! unmapped always receives the fixed miscellaneous assignment.

use vstd::prelude::*;
use vstd::seq_lib::*;
use vstd::set_lib::{lemma_int_range, lemma_len_subset, set_int_range};
use crate::johnny_decimal::{
    area_cats_insert, assign_spec, build_areas_v, cat_add_file, fd_ext_lower, find_area, find_cat,
    group_files, insert_pos, item_number_v, lemma_find_area, lemma_find_cat, lemma_insert_pos,
    misc_assignment_v, new_area_v, new_cat_v, renumber_area, renumber_cat,
    renumber_item, upsert_file,
};
use crate::model::{AreaV, CatV, ErrV, FdV, ItemV, RepV, StructV, WarnV};
use crate::rules::{label_slot, lemma_mapped_pair_in_table, mapped_pair_spec, rule_lookup_spec};
use crate::validation::{
    area_number_valid, cat_errors, cat_number_in_area, cat_numbers, cat_warnings, cats_warnings,
    item_warnings, structure_errors, structure_warnings, validate_spec,
};

verus! {

/// What holds of every area while the builder is grouping: a valid
/// number, at least one category, every category label drawn from the
/// rule table's labels for this area, labels pairwise distinct, and
/// exactly one item per category.
pub open spec fn grouped_area_ok(area: AreaV) -> bool {
    &&& area_number_valid(area.number)
    &&& area.categories.len() >= 1
    &&& forall|j: int|
        0 <= j < area.categories.len() ==> 0 <= label_slot(
            area.number,
            #[trigger] area.categories[j].name,
        ) < 4
    &&& forall|j1: int, j2: int|
        0 <= j1 < j2 < area.categories.len() ==> (#[trigger] area.categories[j1].name)
            != (#[trigger] area.categories[j2].name)
    &&& forall|j: int| 0 <= j < area.categories.len() ==> (#[trigger] area.categories[j]).items.len() == 1
}

/// What holds of the grouped areas: strictly sorted by number, and every
/// area well formed.
pub open spec fn grouped_wf(areas: Seq<AreaV>) -> bool {
    &&& forall|i1: int, i2: int|
        0 <= i1 < i2 < areas.len() ==> (#[trigger] areas[i1].number) < (#[trigger] areas[i2].number)
    &&& forall|i: int| 0 <= i < areas.len() ==> grouped_area_ok(#[trigger] areas[i])
}

/// A label at a slot of the rule table determines the label: two labels
/// of one area sharing a slot are the same label.
proof fn lemma_label_slot_injective(a: u8, l1: Seq<char>, l2: Seq<char>)
    requires
        label_slot(a, l1) == label_slot(a, l2),
        label_slot(a, l1) >= 0,
    ensures
        l1 == l2,
{
}

/// Distinct labels drawn from one area's table labels bound the number of
/// categories by the number of slots.
proof fn lemma_cats_bounded(a: u8, cats: Seq<CatV>)
    requires
        forall|j: int| 0 <= j < cats.len() ==> 0 <= label_slot(a, #[trigger] cats[j].name) < 4,
        forall|j1: int, j2: int|
            0 <= j1 < j2 < cats.len() ==> (#[trigger] cats[j1].name) != (#[trigger] cats[j2].name),
    ensures
        cats.len() <= 4,
{
    let slots = Seq::new(cats.len(), |j: int| label_slot(a, cats[j].name));
    assert forall|j1: int, j2: int| 0 <= j1 < j2 < slots.len() implies slots[j1] != slots[j2] by {
        if slots[j1] == slots[j2] {
            lemma_label_slot_injective(a, cats[j1].name, cats[j2].name);
        }
    }
    assert(slots.no_duplicates());
    slots.unique_seq_to_set();
    assert(slots.to_set().subset_of(set_int_range(0, 4))) by {
        assert forall|x: int| slots.to_set().contains(x) implies set_int_range(0, 4).contains(
            x,
        ) by {
            assert(slots.contains(x));
            let j = choose|j: int| 0 <= j < slots.len() && slots[j] == x;
            assert(0 <= slots[j] < 4);
        }
    }
    lemma_int_range(0, 4);
    seq_to_set_is_finite(slots);
    lemma_len_subset(slots.to_set(), set_int_range(0, 4));
}

/// Grouping one more descriptor keeps the accumulated areas well formed.
proof fn lemma_upsert_preserves(areas: Seq<AreaV>, fd: FdV)
    requires
        grouped_wf(areas),
    ensures
        grouped_wf(upsert_file(areas, fd)),
{
    let ext = fd_ext_lower(fd);
    let pair = mapped_pair_spec(ext);
    let a = pair.0;
    let label = pair.1;
    lemma_mapped_pair_in_table(ext);
    let i = find_area(areas, a);
    lemma_find_area(areas, a);
    let result = upsert_file(areas, fd);
    if i >= 0 {
        let area = areas[i];
        let j = find_cat(area.categories, label);
        lemma_find_cat(area.categories, label);
        let newcats = area_cats_insert(area, label, fd.path);
        if j >= 0 {
            assert(newcats.len() == area.categories.len());
            assert forall|t: int| 0 <= t < newcats.len() implies (#[trigger] newcats[t]).name
                == area.categories[t].name && newcats[t].items.len()
                == area.categories[t].items.len() by {
                if t == j {
                    assert(newcats[t] == cat_add_file(area.categories[j], fd.path));
                }
            }
        } else {
            assert(newcats.len() == area.categories.len() + 1);
            assert(newcats.last() == new_cat_v(area.number, label, fd.path));
            assert(newcats.last().name == label);
            assert(label_slot(a, label) >= 0);
            assert(newcats.last().items.len() == 1);
            assert(area.number == a);
            assert forall|j2: int| 0 <= j2 < area.categories.len() implies (
            #[trigger] area.categories[j2].name) != label by {}
        }
        let newarea = AreaV { categories: newcats, ..area };
        assert(grouped_area_ok(newarea));
        assert(result == areas.update(i, newarea));
        assert forall|t: int| 0 <= t < result.len() implies (#[trigger] result[t]).number
            == areas[t].number by {}
        assert(grouped_wf(result));
    } else {
        let pos = insert_pos(areas, a);
        lemma_insert_pos(areas, a);
        let newarea = new_area_v(a, label, fd.path);
        assert(newarea.categories.len() == 1);
        assert(newarea.categories[0] == new_cat_v(a, label, fd.path));
        assert(grouped_area_ok(newarea));
        assert(result == areas.insert(pos, newarea));
        assert forall|t: int| 0 <= t < result.len() implies grouped_area_ok(
            #[trigger] result[t],
        ) by {
            if t < pos {
                assert(result[t] == areas[t]);
            } else if t == pos {
                assert(result[t] == newarea);
            } else {
                assert(result[t] == areas[t - 1]);
            }
        }
        assert forall|t1: int, t2: int| 0 <= t1 < t2 < result.len() implies (
        #[trigger] result[t1].number) < (#[trigger] result[t2].number) by {
            if t1 < pos {
                assert(result[t1] == areas[t1]);
                assert(areas[t1].number < a);
            }
            if t2 > pos {
                assert(result[t2] == areas[t2 - 1]);
                assert(areas[t2 - 1].number >= a);
                assert(areas[t2 - 1].number != a);
            }
            if t1 == pos {
                assert(result[t1] == newarea);
            }
            if t2 == pos {
                assert(result[t2] == newarea);
            }
            if t1 > pos {
                assert(result[t1] == areas[t1 - 1]);
            }
            if t2 < pos {
                assert(result[t2] == areas[t2]);
            }
        }
        assert(grouped_wf(result));
    }
}

/// The grouped areas are well formed for every batch.
proof fn lemma_group_wf(files: Seq<FdV>)
    ensures
        grouped_wf(group_files(files)),
    decreases files.len(),
{
    if files.len() == 0 {
    } else {
        lemma_group_wf(files.drop_last());
        lemma_upsert_preserves(group_files(files.drop_last()), files.last());
    }
}

/// What holds of the builder's final output: strictly sorted valid area
/// numbers; one to nine categories per area, numbered `area.number + t +
/// 1` at position `t`; exactly one item per category, numbered
/// sequentially.
pub open spec fn built_wf(areas: Seq<AreaV>) -> bool {
    &&& forall|i1: int, i2: int|
        0 <= i1 < i2 < areas.len() ==> (#[trigger] areas[i1].number) < (#[trigger] areas[i2].number)
    &&& forall|i: int| 0 <= i < areas.len() ==> area_number_valid((#[trigger] areas[i]).number)
    &&& forall|i: int|
        0 <= i < areas.len() ==> 1 <= (#[trigger] areas[i]).categories.len() <= 9
    &&& forall|i: int, t: int|
        0 <= i < areas.len() && 0 <= t < areas[i].categories.len() ==> (
        #[trigger] areas[i].categories[t]).number == areas[i].number + t + 1
    &&& forall|i: int, t: int|
        0 <= i < areas.len() && 0 <= t < areas[i].categories.len() ==> (
        #[trigger] areas[i].categories[t]).items.len() == 1
    &&& forall|i: int, t: int, k: int|
        0 <= i < areas.len() && 0 <= t < areas[i].categories.len() && 0 <= k
            < areas[i].categories[t].items.len() ==> (
        #[trigger] areas[i].categories[t].items[k]).number == item_number_v(
            areas[i].categories[t].number,
            (k + 1) as nat,
        )
}

/// Renumbering the grouped areas yields a well-formed built sequence.
proof fn lemma_built_wf(files: Seq<FdV>)
    ensures
        built_wf(build_areas_v(files)),
{
    lemma_group_wf(files);
    let g = group_files(files);
    let b = build_areas_v(files);
    assert(b.len() == g.len());
    assert forall|i: int| 0 <= i < b.len() implies #[trigger] b[i] == renumber_area(g[i]) by {}
    assert forall|i: int| 0 <= i < b.len() implies 1 <= (#[trigger] b[i]).categories.len()
        <= 9 by {
        lemma_cats_bounded(g[i].number, g[i].categories);
    }
    assert forall|i: int, t: int|
        0 <= i < b.len() && 0 <= t < b[i].categories.len() implies (
    #[trigger] b[i].categories[t]).number == b[i].number + t + 1 && (
    #[trigger] b[i].categories[t]).items.len() == 1 by {
        lemma_cats_bounded(g[i].number, g[i].categories);
        assert(b[i].categories[t] == renumber_cat(g[i].number, t as nat, g[i].categories[t]));
        assert(g[i].number + t + 1 < 256);
    }
    assert forall|i: int, t: int, k: int|
        0 <= i < b.len() && 0 <= t < b[i].categories.len() && 0 <= k
            < b[i].categories[t].items.len() implies (
    #[trigger] b[i].categories[t].items[k]).number == item_number_v(
        b[i].categories[t].number,
        (k + 1) as nat,
    ) by {
        assert(b[i].categories[t] == renumber_cat(g[i].number, t as nat, g[i].categories[t]));
        assert(b[i].categories[t].items[k] == renumber_item(
            b[i].categories[t].number,
            k as nat,
            g[i].categories[t].items[k],
        ));
    }
}

/// Categories whose numbers sit inside their area's decade, are pairwise
/// distinct, and avoid everything already seen raise no errors.
proof fn lemma_cat_errors_empty(a: u8, cats: Seq<CatV>, seen_c: Seq<u8>)
    requires
        forall|j: int| 0 <= j < cats.len() ==> cat_number_in_area(a, (#[trigger] cats[j]).number),
        forall|j1: int, j2: int|
            0 <= j1 < j2 < cats.len() ==> (#[trigger] cats[j1].number) != (
            #[trigger] cats[j2].number),
        forall|j: int| 0 <= j < cats.len() ==> !seen_c.contains((#[trigger] cats[j]).number),
    ensures
        cat_errors(a, cats, seen_c) == Seq::<ErrV>::empty(),
    decreases cats.len(),
{
    if cats.len() > 0 {
        let c = cats[0].number;
        let rest = cats.drop_first();
        let seen2 = seen_c.push(c);
        assert forall|j: int| 0 <= j < rest.len() implies !seen2.contains(
            (#[trigger] rest[j]).number,
        ) by {
            assert(rest[j] == cats[j + 1]);
            assert(cats[j + 1].number != c);
            if seen2.contains(cats[j + 1].number) {
                let w = choose|w: int| 0 <= w < seen2.len() && seen2[w] == cats[j + 1].number;
                if w < seen_c.len() {
                    assert(seen_c[w] == cats[j + 1].number);
                    assert(seen_c.contains(cats[j + 1].number));
                }
            }
        }
        assert forall|j: int| 0 <= j < rest.len() implies cat_number_in_area(
            a,
            (#[trigger] rest[j]).number,
        ) by {
            assert(rest[j] == cats[j + 1]);
        }
        assert forall|j1: int, j2: int| 0 <= j1 < j2 < rest.len() implies (
        #[trigger] rest[j1].number) != (#[trigger] rest[j2].number) by {
            assert(rest[j1] == cats[j1 + 1]);
            assert(rest[j2] == cats[j2 + 1]);
        }
        lemma_cat_errors_empty(a, rest, seen2);
        assert(!seen_c.contains(c));
        assert(cat_errors(a, cats, seen_c) =~= Seq::<ErrV>::empty());
    }
}

/// A well-formed built sequence raises no errors, whatever was already
/// seen, as long as the seen numbers avoid it.
proof fn lemma_structure_errors_empty(areas: Seq<AreaV>, seen_a: Seq<u8>, seen_c: Seq<u8>)
    requires
        built_wf(areas),
        forall|i: int| 0 <= i < areas.len() ==> !seen_a.contains((#[trigger] areas[i]).number),
        forall|i: int, t: int|
            0 <= i < areas.len() && 0 <= t < areas[i].categories.len() ==> !seen_c.contains(
                (#[trigger] areas[i].categories[t]).number,
            ),
    ensures
        structure_errors(areas, seen_a, seen_c) == Seq::<ErrV>::empty(),
    decreases areas.len(),
{
    if areas.len() > 0 {
        let head = areas[0];
        let a = head.number;
        let rest = areas.drop_first();
        // The head raises no errors.
        assert(area_number_valid(a));
        assert(!seen_a.contains(a));
        assert forall|t: int| 0 <= t < head.categories.len() implies cat_number_in_area(
            a,
            (#[trigger] head.categories[t]).number,
        ) by {
            assert(head.categories[t].number == a + t + 1);
        }
        lemma_cat_errors_empty(a, head.categories, seen_c);
        // The tail stays clear of the new seen sets.
        let seen_a2 = seen_a.push(a);
        let seen_c2 = seen_c + cat_numbers(head.categories);
        lemma_built_wf_drop_first(areas);
        assert forall|i: int| 0 <= i < rest.len() implies !seen_a2.contains(
            (#[trigger] rest[i]).number,
        ) by {
            assert(rest[i] == areas[i + 1]);
            assert(areas[i + 1].number > a);
            if seen_a2.contains(areas[i + 1].number) {
                let w = choose|w: int|
                    0 <= w < seen_a2.len() && seen_a2[w] == areas[i + 1].number;
                if w < seen_a.len() {
                    assert(seen_a[w] == areas[i + 1].number);
                    assert(seen_a.contains(areas[i + 1].number));
                }
            }
        }
        assert forall|i: int, t: int|
            0 <= i < rest.len() && 0 <= t < rest[i].categories.len() implies !seen_c2.contains(
                (#[trigger] rest[i].categories[t]).number,
            ) by {
            assert(rest[i] == areas[i + 1]);
            let x = areas[i + 1].categories[t].number;
            assert(x == areas[i + 1].number + t + 1);
            // Areas are valid multiples of ten and strictly sorted, so the
            // next area starts a later decade.
            assert(areas[i + 1].number > a);
            assert(areas[i + 1].number % 10 == 0 && a % 10 == 0);
            assert(areas[i + 1].number >= a + 10);
            assert(x > a + 10);
            if seen_c2.contains(x) {
                let w = choose|w: int| 0 <= w < seen_c2.len() && seen_c2[w] == x;
                if w < seen_c.len() {
                    assert(seen_c[w] == x);
                    assert(seen_c.contains(x));
                } else {
                    let t2 = w - seen_c.len();
                    assert(cat_numbers(head.categories)[t2] == x);
                    assert(head.categories[t2].number == a + t2 + 1);
                    assert(a + t2 + 1 <= a + 9);
                }
            }
        }
        lemma_structure_errors_empty(rest, seen_a2, seen_c2);
        assert(structure_errors(areas, seen_a, seen_c) =~= Seq::<ErrV>::empty());
    }
}

/// A built tail is itself well formed.
proof fn lemma_built_wf_drop_first(areas: Seq<AreaV>)
    requires
        built_wf(areas),
        areas.len() > 0,
    ensures
        built_wf(areas.drop_first()),
{
    let rest = areas.drop_first();
    assert forall|i: int| 0 <= i < rest.len() implies #[trigger] rest[i] == areas[i + 1] by {}
}

/// Items numbered sequentially from `pos` raise no numbering warnings.
proof fn lemma_item_warnings_empty(c: u8, items: Seq<ItemV>, pos: nat)
    requires
        forall|k: int|
            0 <= k < items.len() ==> (#[trigger] items[k]).number == item_number_v(
                c,
                (pos + k + 1) as nat,
            ),
    ensures
        item_warnings(c, items, pos) == Seq::<WarnV>::empty(),
    decreases items.len(),
{
    if items.len() > 0 {
        let rest = items.drop_first();
        assert(items[0].number == item_number_v(c, (pos + 1) as nat));
        assert forall|k: int| 0 <= k < rest.len() implies (#[trigger] rest[k]).number
            == item_number_v(c, (pos + 1 + k + 1) as nat) by {
            assert(rest[k] == items[k + 1]);
        }
        lemma_item_warnings_empty(c, rest, pos + 1);
        assert(item_warnings(c, items, pos) =~= Seq::<WarnV>::empty());
    }
}

/// Well-formed built categories raise no warnings.
proof fn lemma_cats_warnings_empty(cats: Seq<CatV>)
    requires
        forall|t: int| 0 <= t < cats.len() ==> (#[trigger] cats[t]).items.len() == 1,
        forall|t: int, k: int|
            0 <= t < cats.len() && 0 <= k < cats[t].items.len() ==> (
            #[trigger] cats[t].items[k]).number == item_number_v(cats[t].number, (k + 1) as nat),
    ensures
        cats_warnings(cats) == Seq::<WarnV>::empty(),
    decreases cats.len(),
{
    if cats.len() > 0 {
        let head = cats[0];
        assert forall|k: int| 0 <= k < head.items.len() implies (#[trigger] head.items[k]).number
            == item_number_v(head.number, (0 + k + 1) as nat) by {}
        lemma_item_warnings_empty(head.number, head.items, 0);
        let rest = cats.drop_first();
        assert forall|t: int, k: int|
            0 <= t < rest.len() && 0 <= k < rest[t].items.len() implies (
        #[trigger] rest[t].items[k]).number == item_number_v(rest[t].number, (k + 1) as nat) by {
            assert(rest[t] == cats[t + 1]);
        }
        assert forall|t: int| 0 <= t < rest.len() implies (#[trigger] rest[t]).items.len()
            == 1 by {
            assert(rest[t] == cats[t + 1]);
        }
        lemma_cats_warnings_empty(rest);
        assert(cat_warnings(head) =~= Seq::<WarnV>::empty());
        assert(cats_warnings(cats) =~= Seq::<WarnV>::empty());
    }
}

/// A well-formed built sequence raises no warnings.
proof fn lemma_structure_warnings_empty(areas: Seq<AreaV>)
    requires
        built_wf(areas),
    ensures
        structure_warnings(areas) == Seq::<WarnV>::empty(),
    decreases areas.len(),
{
    if areas.len() > 0 {
        let head = areas[0];
        assert forall|t: int, k: int|
            0 <= t < head.categories.len() && 0 <= k < head.categories[t].items.len() implies (
        #[trigger] head.categories[t].items[k]).number == item_number_v(
            head.categories[t].number,
            (k + 1) as nat,
        ) by {}
        lemma_cats_warnings_empty(head.categories);
        lemma_built_wf_drop_first(areas);
        lemma_structure_warnings_empty(areas.drop_first());
        assert(structure_warnings(areas) =~= Seq::<WarnV>::empty());
    }
}

/// Law: a structure assembled by the builder passes validation with no
/// errors — its area numbers are valid and unique and its category
/// numbers are unique across the whole structure — and with no warnings —
/// every category's item identifiers are exactly sequential with no gaps,
/// no category is oversize, and no area is empty.
pub proof fn lemma_builder_output_validates(files: Seq<FdV>, s: StructV)
    requires
        s.areas == build_areas_v(files),
    ensures
        validate_spec(s).is_valid,
        validate_spec(s).errors == Seq::<ErrV>::empty(),
        validate_spec(s).warnings == Seq::<WarnV>::empty(),
{
    lemma_built_wf(files);
    lemma_structure_errors_empty(s.areas, Seq::empty(), Seq::empty());
    lemma_structure_warnings_empty(s.areas);
}

/// Law: the validator is a pure function of the structure, so validating
/// the same structure twice yields identical reports.
pub proof fn lemma_validator_idempotent(s: StructV, r1: RepV, r2: RepV)
    requires
        r1 == validate_spec(s),
        r2 == validate_spec(s),
    ensures
        r1 == r2,
{
}

/// Law: a file whose extension is unmapped receives the fixed
/// miscellaneous assignment — area 90, category 91, item "91.01",
/// confidence 0.50 — whatever the structure holds.
pub proof fn lemma_unmapped_extension_gets_misc(fd: FdV, s: StructV)
    requires
        rule_lookup_spec(fd_ext_lower(fd)) is None,
    ensures
        assign_spec(fd, s) == misc_assignment_v(fd_ext_lower(fd)),
        assign_spec(fd, s).area_number == 90,
        assign_spec(fd, s).category_number == 91,
        assign_spec(fd, s).item_number == "91.01"@,
        assign_spec(fd, s).confidence == 50,
{
}

} // verus!
