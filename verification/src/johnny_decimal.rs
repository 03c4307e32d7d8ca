//! The Johnny-Decimal engine: builds a complete taxonomy from a batch of
//! file descriptors, and assigns a single file a place inside an existing
//! taxonomy. Both lean on the rule table in `rules`.

use vstd::prelude::*;
use vstd::string::*;
use crate::error::AppError;
use crate::model::{
    AreaV, AsgV, CatV, CategoryAssignment, FdV, FileDescriptor, ItemV, JDArea, JDCategory, JDItem,
    JDStructure, StructV,
};
use crate::rules::{
    lookup_extension, lookup_extension_or_default, mapped_pair_spec, rule_lookup_spec,
};
use crate::text::{
    ascii_lower, contains_str, contains_seq, dec_digits, dec_digits_pad2, lower_seq, str_eq,
    u8_to_string, usize_to_string_pad2, u64_to_string,
};

verus! {

/// Produces a fresh identifier for a new structure.
///
/// Relies on `uuid::Uuid::new_v4` and its `Display` rendering: a random
/// version-4 UUID rendered in the hyphenated form, which is always 36
/// characters long. The value itself is random, so nothing more is stated.
#[verifier::external_body]
fn fresh_structure_id() -> (r: String)
    ensures
        r@.len() == 36,
{
    uuid::Uuid::new_v4().to_string()
}

/// Reads the wall clock.
///
/// Relies on `chrono::Utc::now` and `DateTime::timestamp_millis`: the
/// current time in milliseconds since the Unix epoch. The value depends on
/// when the call runs, so nothing is stated about it.
#[verifier::external_body]
fn current_timestamp_millis() -> (r: i64) {
    chrono::Utc::now().timestamp_millis()
}

/// The lower-cased extension of a descriptor; an absent extension reads as
/// empty.
pub open spec fn fd_ext_lower(fd: FdV) -> Seq<char> {
    match fd.extension {
        Some(e) => lower_seq(e),
        None => Seq::empty(),
    }
}

/// The canonical display name of an area.
pub open spec fn area_name_spec(n: u8) -> Seq<char> {
    if n == 10 {
        "10-19 Administration"@
    } else if n == 20 {
        "20-29 Documents"@
    } else if n == 30 {
        "30-39 Media"@
    } else if n == 40 {
        "40-49 Development"@
    } else if n == 50 {
        "50-59 Archives"@
    } else if n == 60 {
        "60-69 Projects"@
    } else if n == 70 {
        "70-79 Reference"@
    } else if n == 80 {
        "80-89 Resources"@
    } else if n == 90 {
        "90-99 Miscellaneous"@
    } else {
        dec_digits(n as nat) + "-"@ + dec_digits(n as nat + 9) + " Custom Area"@
    }
}

/// The canonical description of an area.
pub open spec fn area_description_spec(n: u8) -> Seq<char> {
    if n == 10 {
        "Administrative documents, policies, and organizational files"@
    } else if n == 20 {
        "Text documents, reports, presentations, and written content"@
    } else if n == 30 {
        "Images, videos, audio files, and multimedia content"@
    } else if n == 40 {
        "Source code, development tools, and programming resources"@
    } else if n == 50 {
        "Compressed files, archives, and backup collections"@
    } else if n == 60 {
        "Active projects and work-in-progress materials"@
    } else if n == 70 {
        "Reference materials, manuals, and documentation"@
    } else if n == 80 {
        "Tools, utilities, and supporting resources"@
    } else if n == 90 {
        "Uncategorized and miscellaneous files"@
    } else {
        "Custom area for specialized content"@
    }
}

/// The identifier of the item at one-based position `k` in category `c`.
pub open spec fn item_number_v(c: u8, k: nat) -> Seq<char> {
    dec_digits(c as nat) + "."@ + dec_digits_pad2(k)
}

/// The first item of a newly created category.
pub open spec fn new_item_v(c: u8, label: Seq<char>, path: Option<Seq<char>>) -> ItemV {
    ItemV {
        number: dec_digits(c as nat) + ".01"@,
        name: label + " Files"@,
        description: Some("Collection of "@ + lower_seq(label) + " files"@),
        files: match path {
            Some(p) => seq![p],
            None => Seq::empty(),
        },
    }
}

/// A newly created category for `label`, carrying one item. Its number is
/// temporary; the renumbering pass overwrites it.
pub open spec fn new_cat_v(area_number: u8, label: Seq<char>, path: Option<Seq<char>>) -> CatV {
    CatV {
        number: (area_number + 1) as u8,
        name: label,
        description: Some("Files of type: "@ + label),
        items: seq![new_item_v((area_number + 1) as u8, label, path)],
    }
}

/// A newly created area holding one category.
pub open spec fn new_area_v(n: u8, label: Seq<char>, path: Option<Seq<char>>) -> AreaV {
    AreaV {
        number: n,
        name: area_name_spec(n),
        description: Some(area_description_spec(n)),
        categories: seq![new_cat_v(n, label, path)],
    }
}

/// Adds a path to the first item of a category, if the category has an
/// item and the descriptor carried a path.
pub open spec fn cat_add_file(cat: CatV, path: Option<Seq<char>>) -> CatV {
    if cat.items.len() > 0 {
        match path {
            Some(p) => CatV {
                items: cat.items.update(
                    0,
                    ItemV { files: cat.items[0].files.push(p), ..cat.items[0] },
                ),
                ..cat
            },
            None => cat,
        }
    } else {
        cat
    }
}

/// Index of the first category named exactly `label`, or -1.
pub open spec fn find_cat(cats: Seq<CatV>, label: Seq<char>) -> int
    decreases cats.len(),
{
    if cats.len() == 0 {
        -1
    } else if cats[0].name == label {
        0
    } else {
        let r = find_cat(cats.drop_first(), label);
        if r < 0 {
            -1
        } else {
            r + 1
        }
    }
}

/// Index of the first area numbered `n`, or -1.
pub open spec fn find_area(areas: Seq<AreaV>, n: u8) -> int
    decreases areas.len(),
{
    if areas.len() == 0 {
        -1
    } else if areas[0].number == n {
        0
    } else {
        let r = find_area(areas.drop_first(), n);
        if r < 0 {
            -1
        } else {
            r + 1
        }
    }
}

/// Where a new area numbered `n` lands in a sequence sorted by number.
pub open spec fn insert_pos(areas: Seq<AreaV>, n: u8) -> int
    decreases areas.len(),
{
    if areas.len() == 0 {
        0
    } else if areas[0].number < n {
        1 + insert_pos(areas.drop_first(), n)
    } else {
        0
    }
}

/// The categories of `area` after one file with the given label and path
/// is grouped into it.
pub open spec fn area_cats_insert(area: AreaV, label: Seq<char>, path: Option<Seq<char>>) -> Seq<
    CatV,
> {
    let j = find_cat(area.categories, label);
    if j >= 0 {
        area.categories.update(j, cat_add_file(area.categories[j], path))
    } else {
        area.categories.push(new_cat_v(area.number, label, path))
    }
}

/// Groups one descriptor into the accumulated areas, which stay sorted by
/// area number.
pub open spec fn upsert_file(areas: Seq<AreaV>, fd: FdV) -> Seq<AreaV> {
    let ext = fd_ext_lower(fd);
    let (a, label) = mapped_pair_spec(ext);
    let i = find_area(areas, a);
    if i >= 0 {
        areas.update(i, AreaV { categories: area_cats_insert(areas[i], label, fd.path), ..areas[i] })
    } else {
        areas.insert(insert_pos(areas, a), new_area_v(a, label, fd.path))
    }
}

/// Groups a batch of descriptors into areas, in input order.
pub open spec fn group_files(files: Seq<FdV>) -> Seq<AreaV>
    decreases files.len(),
{
    if files.len() == 0 {
        Seq::empty()
    } else {
        upsert_file(group_files(files.drop_last()), files.last())
    }
}

/// The item at zero-based position `k`, renumbered for category `c`.
pub open spec fn renumber_item(c: u8, k: nat, item: ItemV) -> ItemV {
    ItemV { number: item_number_v(c, k + 1), ..item }
}

/// The category at zero-based position `i` of its area, renumbered. The
/// new number wraps at the width of the number field.
pub open spec fn renumber_cat(a: u8, i: nat, cat: CatV) -> CatV {
    let c = (((a + i + 1) % 256) as u8);
    CatV {
        number: c,
        items: Seq::new(cat.items.len(), |k: int| renumber_item(c, k as nat, cat.items[k])),
        ..cat
    }
}

/// An area with its categories and items renumbered sequentially.
pub open spec fn renumber_area(area: AreaV) -> AreaV {
    AreaV {
        categories: Seq::new(
            area.categories.len(),
            |i: int| renumber_cat(area.number, i as nat, area.categories[i]),
        ),
        ..area
    }
}

/// What the builder produces for a batch of descriptors: the grouped
/// areas, renumbered.
pub open spec fn build_areas_v(files: Seq<FdV>) -> Seq<AreaV> {
    let g = group_files(files);
    Seq::new(g.len(), |i: int| renumber_area(g[i]))
}

/// `find_area` returns the index of the first area numbered `n`, and -1
/// exactly when no area is.
pub proof fn lemma_find_area(s: Seq<AreaV>, n: u8)
    ensures
        find_area(s, n) == -1 ==> forall|j: int| 0 <= j < s.len() ==> s[j].number != n,
        find_area(s, n) != -1 ==> 0 <= find_area(s, n) < s.len() && s[find_area(s, n)].number == n
            && forall|j: int| 0 <= j < find_area(s, n) ==> s[j].number != n,
    decreases s.len(),
{
    if s.len() == 0 {
    } else if s[0].number == n {
    } else {
        lemma_find_area(s.drop_first(), n);
        assert forall|j: int| 1 <= j < s.len() implies s[j] == s.drop_first()[j - 1] by {}
    }
}

/// `find_cat` returns the index of the first category named `label`, and
/// -1 exactly when none is.
pub proof fn lemma_find_cat(s: Seq<CatV>, label: Seq<char>)
    ensures
        find_cat(s, label) == -1 ==> forall|j: int| 0 <= j < s.len() ==> s[j].name != label,
        find_cat(s, label) != -1 ==> 0 <= find_cat(s, label) < s.len() && s[find_cat(
            s,
            label,
        )].name == label && forall|j: int| 0 <= j < find_cat(s, label) ==> s[j].name != label,
    decreases s.len(),
{
    if s.len() == 0 {
    } else if s[0].name == label {
    } else {
        lemma_find_cat(s.drop_first(), label);
        assert forall|j: int| 1 <= j < s.len() implies s[j] == s.drop_first()[j - 1] by {}
    }
}

/// `insert_pos` points at the first area whose number is at least `n`.
pub proof fn lemma_insert_pos(s: Seq<AreaV>, n: u8)
    ensures
        0 <= insert_pos(s, n) <= s.len(),
        forall|j: int| 0 <= j < insert_pos(s, n) ==> s[j].number < n,
        insert_pos(s, n) < s.len() ==> s[insert_pos(s, n)].number >= n,
    decreases s.len(),
{
    if s.len() == 0 {
    } else if s[0].number < n {
        lemma_insert_pos(s.drop_first(), n);
        assert forall|j: int| 1 <= j < s.len() implies s[j] == s.drop_first()[j - 1] by {}
    }
}

/// The canonical display name of an area, as a string.
pub fn area_name(n: u8) -> (r: String)
    ensures
        r@ == area_name_spec(n),
{
    if n == 10 {
        String::from_str("10-19 Administration")
    } else if n == 20 {
        String::from_str("20-29 Documents")
    } else if n == 30 {
        String::from_str("30-39 Media")
    } else if n == 40 {
        String::from_str("40-49 Development")
    } else if n == 50 {
        String::from_str("50-59 Archives")
    } else if n == 60 {
        String::from_str("60-69 Projects")
    } else if n == 70 {
        String::from_str("70-79 Reference")
    } else if n == 80 {
        String::from_str("80-89 Resources")
    } else if n == 90 {
        String::from_str("90-99 Miscellaneous")
    } else {
        let mut s = u64_to_string(n as u64);
        s.append("-");
        let hi = u64_to_string(n as u64 + 9);
        s.append(hi.as_str());
        s.append(" Custom Area");
        s
    }
}

/// The canonical description of an area, as a string.
pub fn area_description(n: u8) -> (r: String)
    ensures
        r@ == area_description_spec(n),
{
    if n == 10 {
        String::from_str("Administrative documents, policies, and organizational files")
    } else if n == 20 {
        String::from_str("Text documents, reports, presentations, and written content")
    } else if n == 30 {
        String::from_str("Images, videos, audio files, and multimedia content")
    } else if n == 40 {
        String::from_str("Source code, development tools, and programming resources")
    } else if n == 50 {
        String::from_str("Compressed files, archives, and backup collections")
    } else if n == 60 {
        String::from_str("Active projects and work-in-progress materials")
    } else if n == 70 {
        String::from_str("Reference materials, manuals, and documentation")
    } else if n == 80 {
        String::from_str("Tools, utilities, and supporting resources")
    } else if n == 90 {
        String::from_str("Uncategorized and miscellaneous files")
    } else {
        String::from_str("Custom area for specialized content")
    }
}

/// The identifier of the item at one-based position `k` in category `c`.
pub fn item_number_string(c: u8, k: usize) -> (r: String)
    ensures
        r@ == item_number_v(c, k as nat),
{
    let mut s = u8_to_string(c);
    s.append(".");
    let tail = usize_to_string_pad2(k);
    s.append(tail.as_str());
    s
}

/// Index of the first area numbered `n` in the vector, if any.
fn find_area_idx(areas: &Vec<JDArea>, n: u8) -> (r: Option<usize>)
    ensures
        match r {
            Some(i) => find_area(areas.deep_view(), n) == i as int,
            None => find_area(areas.deep_view(), n) == -1,
        },
{
    let len = areas.len();
    let mut k: usize = 0;
    while k < len
        invariant
            len == areas@.len(),
            k <= len,
            forall|j: int| 0 <= j < k ==> #[trigger] areas.deep_view()[j].number != n,
        decreases len - k,
    {
        if areas[k].number == n {
            proof {
                lemma_find_area(areas.deep_view(), n);
                assert(areas.deep_view()[k as int].number == n);
            }
            return Some(k);
        }
        k += 1;
    }
    proof {
        lemma_find_area(areas.deep_view(), n);
    }
    None
}

/// Index of the first category named exactly `label`, if any.
fn find_cat_idx(cats: &Vec<JDCategory>, label: &str) -> (r: Option<usize>)
    ensures
        match r {
            Some(i) => find_cat(cats.deep_view(), label@) == i as int,
            None => find_cat(cats.deep_view(), label@) == -1,
        },
{
    let len = cats.len();
    let mut k: usize = 0;
    while k < len
        invariant
            len == cats@.len(),
            k <= len,
            forall|j: int| 0 <= j < k ==> #[trigger] cats.deep_view()[j].name != label@,
        decreases len - k,
    {
        if str_eq(cats[k].name.as_str(), label) {
            proof {
                lemma_find_cat(cats.deep_view(), label@);
                assert(cats.deep_view()[k as int].name == label@);
            }
            return Some(k);
        }
        k += 1;
    }
    proof {
        lemma_find_cat(cats.deep_view(), label@);
    }
    None
}

/// Where a new area numbered `n` lands so the vector stays sorted.
fn insert_position(areas: &Vec<JDArea>, n: u8) -> (r: usize)
    ensures
        r as int == insert_pos(areas.deep_view(), n),
{
    let len = areas.len();
    let mut k: usize = 0;
    while k < len
        invariant
            len == areas@.len(),
            k <= len,
            forall|j: int| 0 <= j < k ==> #[trigger] areas.deep_view()[j].number < n,
        decreases len - k,
    {
        if areas[k].number >= n {
            proof {
                lemma_insert_pos(areas.deep_view(), n);
                assert(areas.deep_view()[k as int].number >= n);
            }
            return k;
        }
        k += 1;
    }
    proof {
        lemma_insert_pos(areas.deep_view(), n);
    }
    len
}

/// A new item holding the file's path, named after the category label.
fn make_new_item(c: u8, label: &str, path: &Option<String>) -> (r: JDItem)
    ensures
        r@ == new_item_v(c, label@, path.deep_view()),
{
    let mut number = u8_to_string(c);
    number.append(".01");
    let mut name = String::from_str(label);
    name.append(" Files");
    let mut desc = String::from_str("Collection of ");
    let low = ascii_lower(label);
    desc.append(low.as_str());
    desc.append(" files");
    let mut files: Vec<String> = Vec::new();
    match path {
        Some(p) => {
            files.push(p.clone());
            proof {
                assert(files.deep_view() =~= seq![p@]);
            }
        },
        None => {
            proof {
                assert(files.deep_view() =~= Seq::<Seq<char>>::empty());
            }
        },
    }
    let r = JDItem { number, name, description: Some(desc), files };
    proof {
        assert(r@.files == new_item_v(c, label@, path.deep_view()).files);
    }
    r
}

/// A new category for `label`, holding one new item.
fn make_new_category(a: u8, label: &str, path: &Option<String>) -> (r: JDCategory)
    requires
        a <= 90,
    ensures
        r@ == new_cat_v(a, label@, path.deep_view()),
{
    let c: u8 = a + 1;
    let item = make_new_item(c, label, path);
    let mut desc = String::from_str("Files of type: ");
    desc.append(label);
    let mut items: Vec<JDItem> = Vec::new();
    items.push(item);
    let r = JDCategory { number: c, name: String::from_str(label), description: Some(desc), items };
    proof {
        assert(r@.items =~= new_cat_v(a, label@, path.deep_view()).items);
    }
    r
}

/// A new area numbered `n`, holding one new category.
fn make_new_area(n: u8, label: &str, path: &Option<String>) -> (r: JDArea)
    requires
        n <= 90,
    ensures
        r@ == new_area_v(n, label@, path.deep_view()),
{
    let cat = make_new_category(n, label, path);
    let mut cats: Vec<JDCategory> = Vec::new();
    cats.push(cat);
    let r = JDArea {
        number: n,
        name: area_name(n),
        description: Some(area_description(n)),
        categories: cats,
    };
    proof {
        assert(r@.categories =~= new_area_v(n, label@, path.deep_view()).categories);
    }
    r
}

/// Groups one descriptor into the accumulated areas.
fn upsert_exec(areas: &mut Vec<JDArea>, fd: &FileDescriptor)
    ensures
        final(areas).deep_view() == upsert_file(old(areas).deep_view(), fd@),
{
    let ghost prev = areas.deep_view();
    let ext_low: String = match &fd.extension {
        Some(e) => ascii_lower(e.as_str()),
        None => String::new(),
    };
    proof {
        assert(ext_low@ =~= fd_ext_lower(fd@));
    }
    let pair = lookup_extension_or_default(ext_low.as_str());
    let a: u8 = pair.0;
    let label: String = pair.1;
    proof {
        crate::rules::lemma_mapped_pair_in_table(ext_low@);
        assert((a, label@) == mapped_pair_spec(fd_ext_lower(fd@)));
    }
    let idx = find_area_idx(areas, a);
    match idx {
        Some(i) => {
            proof {
                lemma_find_area(prev, a);
                assert(prev.len() == areas@.len());
            }
            let mut area = areas.remove(i);
            proof {
                assert(area@ == prev[i as int]);
            }
            let ghost prev_area = area@;
            let j = find_cat_idx(&area.categories, label.as_str());
            match j {
                Some(jj) => {
                    proof {
                        lemma_find_cat(prev_area.categories, label@);
                        assert(prev_area.categories.len() == area.categories@.len());
                    }
                    let ghost prev_cats = area.categories.deep_view();
                    let mut cat = area.categories.remove(jj);
                    let ghost prev_cat = cat@;
                    if cat.items.len() > 0 {
                        match &fd.path {
                            Some(p) => {
                                let ghost items0 = cat.items.deep_view();
                                let mut item = cat.items.remove(0);
                                let ghost item0 = item@;
                                item.files.push(p.clone());
                                proof {
                                    assert(item@.files =~= item0.files.push(p@));
                                }
                                cat.items.insert(0, item);
                                proof {
                                    assert(cat@.items =~= cat_add_file(prev_cat, fd@.path).items);
                                }
                            },
                            None => {},
                        }
                    }
                    area.categories.insert(jj, cat);
                    proof {
                        assert(cat@ == cat_add_file(prev_cat, fd@.path));
                        assert(area@.categories =~= area_cats_insert(prev_area, label@, fd@.path));
                    }
                },
                None => {
                    let cat = make_new_category(a, label.as_str(), &fd.path);
                    area.categories.push(cat);
                    proof {
                        assert(area@.categories =~= area_cats_insert(prev_area, label@, fd@.path));
                    }
                },
            }
            areas.insert(i, area);
            proof {
                assert(areas.deep_view() =~= upsert_file(prev, fd@));
            }
        },
        None => {
            let pos = insert_position(areas, a);
            proof {
                lemma_insert_pos(prev, a);
                assert(prev.len() == areas@.len());
            }
            let area = make_new_area(a, label.as_str(), &fd.path);
            areas.insert(pos, area);
            proof {
                assert(areas.deep_view() =~= upsert_file(prev, fd@));
            }
        },
    }
}

/// Renumbers categories sequentially inside every area, and items
/// sequentially inside every category.
fn renumber_exec(areas: &mut Vec<JDArea>)
    ensures
        final(areas).deep_view() == Seq::new(
            old(areas).deep_view().len(),
            |i: int| renumber_area(old(areas).deep_view()[i]),
        ),
{
    let ghost g = old(areas).deep_view();
    let n = areas.len();
    let mut i: usize = 0;
    while i < n
        invariant
            n == areas@.len(),
            g.len() == n,
            i <= n,
            forall|t: int| 0 <= t < i ==> #[trigger] areas.deep_view()[t] == renumber_area(g[t]),
            forall|t: int| i <= t < n ==> #[trigger] areas.deep_view()[t] == g[t],
        decreases n - i,
    {
        let ghost entry_vec = areas@;
        let ghost entry_deep = areas.deep_view();
        proof {
            assert(entry_deep[i as int] == g[i as int]);
        }
        let mut area = areas.remove(i);
        let ghost area0 = area@;
        proof {
            assert(area0 == g[i as int]);
        }
        let a = area.number;
        renumber_area_exec(&mut area);
        areas.insert(i, area);
        proof {
            assert(areas@ =~= entry_vec.update(i as int, area));
            assert forall|t: int| 0 <= t < i + 1 implies #[trigger] areas.deep_view()[t]
                == renumber_area(g[t]) by {
                if t < i {
                    assert(areas.deep_view()[t] == entry_deep[t]);
                } else {
                    assert(areas.deep_view()[t] == area@);
                }
            }
            assert forall|t: int| i + 1 <= t < n implies #[trigger] areas.deep_view()[t]
                == g[t] by {
                assert(areas.deep_view()[t] == entry_deep[t]);
            }
        }
        i += 1;
    }
    proof {
        assert(areas.deep_view() =~= Seq::new(g.len(), |t: int| renumber_area(g[t])));
    }
}

/// Renumbers the categories of one area in place.
fn renumber_area_exec(area: &mut JDArea)
    ensures
        final(area)@ == renumber_area(old(area)@),
{
    let ghost area0 = old(area)@;
    let a = area.number;
    let m = area.categories.len();
    let mut j: usize = 0;
    while j < m
        invariant
            m == area.categories@.len(),
            j <= m,
            a == area0.number,
            area.number == area0.number,
            area@.name == area0.name,
            area@.description == area0.description,
            area0.categories.len() == m,
            forall|t: int|
                0 <= t < j ==> #[trigger] area.categories.deep_view()[t] == renumber_cat(
                    area0.number,
                    t as nat,
                    area0.categories[t],
                ),
            forall|t: int|
                j <= t < m ==> #[trigger] area.categories.deep_view()[t] == area0.categories[t],
        decreases m - j,
    {
        let ghost entry_vec = area.categories@;
        let ghost entry_deep = area.categories.deep_view();
        proof {
            assert(entry_deep[j as int] == area0.categories[j as int]);
        }
        let mut cat = area.categories.remove(j);
        let ghost cat0 = cat@;
        proof {
            assert(cat0 == area0.categories[j as int]);
        }
        let cw: u128 = a as u128 + j as u128 + 1;
        let c: u8 = ((cw % 256) as u8);
        renumber_cat_exec(&mut cat, c);
        proof {
            assert(cat@ == renumber_cat(area0.number, j as nat, cat0));
        }
        area.categories.insert(j, cat);
        proof {
            assert(area.categories@ =~= entry_vec.update(j as int, cat));
            assert forall|t: int| 0 <= t < j + 1 implies #[trigger] area.categories.deep_view()[t]
                == renumber_cat(area0.number, t as nat, area0.categories[t]) by {
                if t < j {
                    assert(area.categories.deep_view()[t] == entry_deep[t]);
                } else {
                    assert(area.categories.deep_view()[t] == cat@);
                }
            }
            assert forall|t: int| j + 1 <= t < m implies #[trigger] area.categories.deep_view()[t]
                == area0.categories[t] by {
                assert(area.categories.deep_view()[t] == entry_deep[t]);
            }
        }
        j += 1;
    }
    proof {
        assert(area@.categories =~= renumber_area(area0).categories);
        assert(area@ == renumber_area(area0));
    }
}

/// Gives one category the number `c` and renumbers its items in place.
fn renumber_cat_exec(cat: &mut JDCategory, c: u8)
    ensures
        final(cat)@ == (CatV {
            number: c,
            items: Seq::new(
                old(cat)@.items.len(),
                |k: int| renumber_item(c, k as nat, old(cat)@.items[k]),
            ),
            ..old(cat)@
        }),
{
    let ghost cat0 = old(cat)@;
    cat.number = c;
    let mi = cat.items.len();
    let mut k: usize = 0;
    while k < mi
        invariant
            mi == cat.items@.len(),
            k <= mi,
            cat.number == c,
            cat@.name == cat0.name,
            cat@.description == cat0.description,
            cat0.items.len() == mi,
            forall|t: int|
                0 <= t < k ==> #[trigger] cat.items.deep_view()[t] == renumber_item(
                    c,
                    t as nat,
                    cat0.items[t],
                ),
            forall|t: int| k <= t < mi ==> #[trigger] cat.items.deep_view()[t] == cat0.items[t],
        decreases mi - k,
    {
        let ghost entry_vec = cat.items@;
        let ghost entry_deep = cat.items.deep_view();
        proof {
            assert(entry_deep[k as int] == cat0.items[k as int]);
        }
        let mut item = cat.items.remove(k);
        let ghost item0 = item@;
        proof {
            assert(item0 == cat0.items[k as int]);
        }
        let num = item_number_string(c, k + 1);
        item.number = num;
        proof {
            assert(item@ == renumber_item(c, k as nat, cat0.items[k as int]));
        }
        cat.items.insert(k, item);
        proof {
            assert(cat.items@ =~= entry_vec.update(k as int, item));
            assert forall|t: int| 0 <= t < k + 1 implies #[trigger] cat.items.deep_view()[t]
                == renumber_item(c, t as nat, cat0.items[t]) by {
                if t < k {
                    assert(cat.items.deep_view()[t] == entry_deep[t]);
                } else {
                    assert(cat.items.deep_view()[t] == item@);
                }
            }
            assert forall|t: int| k + 1 <= t < mi implies #[trigger] cat.items.deep_view()[t]
                == cat0.items[t] by {
                assert(cat.items.deep_view()[t] == entry_deep[t]);
            }
        }
        k += 1;
    }
    proof {
        assert(cat@.items =~= Seq::new(
            cat0.items.len(),
            |t: int| renumber_item(c, t as nat, cat0.items[t]),
        ));
    }
}

/// The fixed miscellaneous assignment for a file whose extension matched
/// nothing in the structure.
pub open spec fn misc_assignment_v(ext: Seq<char>) -> AsgV {
    AsgV {
        area_number: 90,
        category_number: 91,
        item_number: "91.01"@,
        confidence: 50,
        reasoning: "No specific category found for extension '"@ + ext
            + "', assigned to miscellaneous"@,
    }
}

/// Index of the first category whose lower-cased name contains
/// `label_low` as a substring, or -1.
pub open spec fn find_cat_ci(cats: Seq<CatV>, label_low: Seq<char>) -> int
    decreases cats.len(),
{
    if cats.len() == 0 {
        -1
    } else if contains_seq(lower_seq(cats[0].name), label_low) {
        0
    } else {
        let r = find_cat_ci(cats.drop_first(), label_low);
        if r < 0 {
            -1
        } else {
            r + 1
        }
    }
}

/// `find_cat_ci` returns the index of the first case-insensitive match,
/// and -1 exactly when none matches.
pub proof fn lemma_find_cat_ci(s: Seq<CatV>, label_low: Seq<char>)
    ensures
        find_cat_ci(s, label_low) == -1 ==> forall|j: int|
            0 <= j < s.len() ==> !contains_seq(lower_seq(#[trigger] s[j].name), label_low),
        find_cat_ci(s, label_low) != -1 ==> 0 <= find_cat_ci(s, label_low) < s.len()
            && contains_seq(lower_seq(s[find_cat_ci(s, label_low)].name), label_low) && forall|
            j: int,
        |
            0 <= j < find_cat_ci(s, label_low) ==> !contains_seq(
                lower_seq(#[trigger] s[j].name),
                label_low,
            ),
    decreases s.len(),
{
    if s.len() == 0 {
    } else if contains_seq(lower_seq(s[0].name), label_low) {
    } else {
        lemma_find_cat_ci(s.drop_first(), label_low);
        assert forall|j: int| 1 <= j < s.len() implies s[j] == s.drop_first()[j - 1] by {}
    }
}

/// What the assigner proposes for one file against one structure: the
/// first category of the file's area whose name contains the table label
/// case-insensitively, or the fixed miscellaneous placement.
pub open spec fn assign_spec(fd: FdV, s: StructV) -> AsgV {
    let ext = fd_ext_lower(fd);
    match rule_lookup_spec(ext) {
        Some(pair) => {
            let i = find_area(s.areas, pair.0);
            if i >= 0 {
                let j = find_cat_ci(s.areas[i].categories, lower_seq(pair.1));
                if j >= 0 {
                    let cat = s.areas[i].categories[j];
                    AsgV {
                        area_number: pair.0,
                        category_number: cat.number,
                        item_number: if cat.items.len() > 0 {
                            cat.items[0].number
                        } else {
                            dec_digits(cat.number as nat) + ".01"@
                        },
                        confidence: 85,
                        reasoning: "File extension '"@ + ext + "' matches category '"@ + pair.1
                            + "' in area "@ + dec_digits(pair.0 as nat),
                    }
                } else {
                    misc_assignment_v(ext)
                }
            } else {
                misc_assignment_v(ext)
            }
        },
        None => misc_assignment_v(ext),
    }
}

/// Index of the first category whose lower-cased name contains the
/// lower-cased label, if any.
fn find_cat_ci_idx(cats: &Vec<JDCategory>, label_low: &str) -> (r: Option<usize>)
    ensures
        match r {
            Some(i) => find_cat_ci(cats.deep_view(), label_low@) == i as int,
            None => find_cat_ci(cats.deep_view(), label_low@) == -1,
        },
{
    let len = cats.len();
    let mut k: usize = 0;
    while k < len
        invariant
            len == cats@.len(),
            k <= len,
            forall|j: int|
                0 <= j < k ==> !contains_seq(
                    lower_seq(#[trigger] cats.deep_view()[j].name),
                    label_low@,
                ),
        decreases len - k,
    {
        let low = ascii_lower(cats[k].name.as_str());
        if contains_str(low.as_str(), label_low) {
            proof {
                lemma_find_cat_ci(cats.deep_view(), label_low@);
                assert(contains_seq(lower_seq(cats.deep_view()[k as int].name), label_low@));
            }
            return Some(k);
        }
        k += 1;
    }
    proof {
        lemma_find_cat_ci(cats.deep_view(), label_low@);
    }
    None
}

/// The fixed miscellaneous assignment.
fn misc_assignment(ext: &str) -> (r: CategoryAssignment)
    ensures
        r@ == misc_assignment_v(ext@),
{
    let mut reasoning = String::from_str("No specific category found for extension '");
    reasoning.append(ext);
    reasoning.append("', assigned to miscellaneous");
    CategoryAssignment {
        area_number: 90,
        category_number: 91,
        item_number: String::from_str("91.01"),
        confidence: 50,
        reasoning,
    }
}

/// The engine: holds no mutable state; the rule table is a fixed pure
/// function.
pub struct JohnnyDecimalEngine {}

impl JohnnyDecimalEngine {
    /// Creates an engine. The rule table is fixed, so this always
    /// succeeds.
    pub fn new() -> (r: Result<JohnnyDecimalEngine, AppError>)
        ensures
            r is Ok,
    {
        Ok(JohnnyDecimalEngine {  })
    }

    /// The canonical display name of an area.
    pub fn get_area_name(&self, number: u8) -> (r: String)
        ensures
            r@ == area_name_spec(number),
    {
        area_name(number)
    }

    /// The canonical description of an area.
    pub fn get_area_description(&self, number: u8) -> (r: String)
        ensures
            r@ == area_description_spec(number),
    {
        area_description(number)
    }

    /// Builds a complete, renumbered structure from a batch of file
    /// descriptors. Deterministic given the rule table; the identifier is
    /// fresh and both timestamps carry the build time.
    pub fn create_structure(&self, files: Vec<FileDescriptor>, root_path: &str) -> (r: JDStructure)
        ensures
            r.areas.deep_view() == build_areas_v(files.deep_view()),
            r.name@ == "AI Generated Structure"@,
            r.root_path@ == root_path@,
            r.created_at == r.modified_at,
            r.id@.len() == 36,
    {
        let now = current_timestamp_millis();
        let mut areas: Vec<JDArea> = Vec::new();
        let n = files.len();
        proof {
            assert(files.deep_view().take(0) =~= Seq::<FdV>::empty());
            assert(areas.deep_view() =~= group_files(files.deep_view().take(0)));
        }
        let mut fi: usize = 0;
        while fi < n
            invariant
                n == files@.len(),
                fi <= n,
                files.deep_view().len() == n,
                areas.deep_view() == group_files(files.deep_view().take(fi as int)),
            decreases n - fi,
        {
            upsert_exec(&mut areas, &files[fi]);
            proof {
                let fv = files.deep_view();
                assert(fv.take(fi as int + 1).drop_last() =~= fv.take(fi as int));
                assert(fv.take(fi as int + 1).last() == fv[fi as int]);
            }
            fi += 1;
        }
        proof {
            assert(files.deep_view().take(n as int) =~= files.deep_view());
        }
        renumber_exec(&mut areas);
        let id = fresh_structure_id();
        JDStructure {
            id,
            name: String::from_str("AI Generated Structure"),
            root_path: String::from_str(root_path),
            areas,
            created_at: now,
            modified_at: now,
        }
    }

    /// Proposes where one file belongs inside an existing structure. Never
    /// fails: a file that matches no area or category of the structure
    /// receives the fixed miscellaneous assignment.
    pub fn categorize_file(&self, file_info: &FileDescriptor, structure: &JDStructure) -> (r:
        CategoryAssignment)
        ensures
            r@ == assign_spec(file_info@, structure@),
    {
        let ext_low: String = match &file_info.extension {
            Some(e) => ascii_lower(e.as_str()),
            None => String::new(),
        };
        proof {
            assert(ext_low@ =~= fd_ext_lower(file_info@));
        }
        match lookup_extension(ext_low.as_str()) {
            Some(pair) => {
                let a: u8 = pair.0;
                let label: String = pair.1;
                match find_area_idx(&structure.areas, a) {
                    Some(i) => {
                        proof {
                            lemma_find_area(structure.areas.deep_view(), a);
                        }
                        let area = &structure.areas[i];
                        let label_low = ascii_lower(label.as_str());
                        match find_cat_ci_idx(&area.categories, label_low.as_str()) {
                            Some(j) => {
                                proof {
                                    lemma_find_cat_ci(area.categories.deep_view(), label_low@);
                                }
                                let cat = &area.categories[j];
                                let item_number: String = if cat.items.len() > 0 {
                                    cat.items[0].number.clone()
                                } else {
                                    let mut s = u8_to_string(cat.number);
                                    s.append(".01");
                                    s
                                };
                                let mut reasoning = String::from_str("File extension '");
                                reasoning.append(ext_low.as_str());
                                reasoning.append("' matches category '");
                                reasoning.append(label.as_str());
                                reasoning.append("' in area ");
                                let an = u8_to_string(a);
                                reasoning.append(an.as_str());
                                CategoryAssignment {
                                    area_number: a,
                                    category_number: cat.number,
                                    item_number,
                                    confidence: 85,
                                    reasoning,
                                }
                            },
                            None => misc_assignment(ext_low.as_str()),
                        }
                    },
                    None => misc_assignment(ext_low.as_str()),
                }
            },
            None => misc_assignment(ext_low.as_str()),
        }
    }
}

} // verus!
