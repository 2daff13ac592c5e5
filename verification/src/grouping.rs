use crate::lexical::{
    ascending, lemma_name_le_total, lemma_name_le_transitive, name_le, name_precedes,
};
use crate::models::{Tag, TagMap, TagView};
use crate::rows::{tag_rows, TagRow, TagRowView};
use vstd::prelude::*;

verus! {

/// The views of a list of tags, in order.
pub open spec fn tags_view(v: Seq<Tag>) -> Seq<TagView> {
    Seq::new(v.len(), |i: int| v[i]@)
}

/// The names of a list of tags, in order.
pub open spec fn tag_names(tags: Seq<TagView>) -> Seq<Seq<char>> {
    Seq::new(tags.len(), |i: int| tags[i].tag)
}

/// The pairings of the first `n` rows that carry the name, in the order of the rows.
pub open spec fn maps_before(rows: Seq<TagRowView>, n: int, name: Seq<char>) -> Seq<TagMap>
    decreases n,
{
    if n <= 0 || n > rows.len() {
        Seq::empty()
    } else {
        let earlier = maps_before(rows, n - 1, name);
        if rows[n - 1].tag == name {
            earlier.push(rows[n - 1].map)
        } else {
            earlier
        }
    }
}

/// The pairings of the rows that carry the name, in the order of the rows.
pub open spec fn maps_of(rows: Seq<TagRowView>, name: Seq<char>) -> Seq<TagMap> {
    maps_before(rows, rows.len() as int, name)
}

/// The names that the first `n` rows carry, each once, in the order in which they first
/// occur.
pub open spec fn names_before(rows: Seq<TagRowView>, n: int) -> Seq<Seq<char>>
    decreases n,
{
    if n <= 0 || n > rows.len() {
        Seq::empty()
    } else {
        let earlier = names_before(rows, n - 1);
        if earlier.contains(rows[n - 1].tag) {
            earlier
        } else {
            earlier.push(rows[n - 1].tag)
        }
    }
}

/// Row `f` is the first that carries the name.
pub open spec fn is_first_with_name(rows: Seq<TagRowView>, name: Seq<char>, f: int) -> bool {
    &&& 0 <= f < rows.len()
    &&& rows[f].tag == name
    &&& forall|j: int| 0 <= j < f ==> (#[trigger] rows[j]).tag != name
}

/// `tags` groups the first `n` rows by name: one tag for each name that occurs among them
/// and no name twice; each tag with the pairings of all those rows of its name, in their
/// order, and with the colour of the first of them.
pub open spec fn groups_before(tags: Seq<TagView>, rows: Seq<TagRowView>, n: int) -> bool {
    &&& tag_names(tags).no_duplicates()
    &&& forall|j: int|
        0 <= j < n && j < rows.len() ==> tag_names(tags).contains((#[trigger] rows[j]).tag)
    &&& forall|g: int|
        #![trigger tags[g]]
        0 <= g < tags.len() ==> {
            &&& tags[g].maps == maps_before(rows, n, tags[g].tag)
            &&& exists|f: int|
                f < n && is_first_with_name(rows, tags[g].tag, f) && tags[g].color
                    == (#[trigger] rows[f]).color
        }
}

/// `tags` groups the rows by name.
pub open spec fn is_grouping(tags: Seq<TagView>, rows: Seq<TagRowView>) -> bool {
    groups_before(tags, rows, rows.len() as int)
}

/// Rows of other names add no pairing.
pub proof fn lemma_maps_before_absent(rows: Seq<TagRowView>, n: int, name: Seq<char>)
    requires
        forall|j: int| 0 <= j < n && j < rows.len() ==> (#[trigger] rows[j]).tag != name,
    ensures
        maps_before(rows, n, name) == Seq::<TagMap>::empty(),
    decreases n,
{
    if 0 < n <= rows.len() {
        lemma_maps_before_absent(rows, n - 1, name);
    }
}

/// A name that some row carries has at least one pairing.
pub proof fn lemma_maps_of_present(rows: Seq<TagRowView>, name: Seq<char>)
    requires
        exists|f: int| is_first_with_name(rows, name, f),
    ensures
        maps_of(rows, name).len() > 0,
{
    let f = choose|f: int| is_first_with_name(rows, name, f);
    lemma_maps_before_grows(rows, f + 1, rows.len() as int, name);
}

/// The pairings of a name only grow as more rows are taken in.
pub proof fn lemma_maps_before_grows(rows: Seq<TagRowView>, m: int, n: int, name: Seq<char>)
    requires
        0 <= m <= n <= rows.len(),
    ensures
        maps_before(rows, m, name).len() <= maps_before(rows, n, name).len(),
        m > 0 && rows[m - 1].tag == name ==> maps_before(rows, n, name).len() > 0,
    decreases n - m,
{
    if m < n {
        lemma_maps_before_grows(rows, m, n - 1, name);
    }
}

/// The place of the tag with the given name, if there is one.
fn find_tag(tags: &Vec<Tag>, name: &String) -> (at: Option<usize>)
    ensures
        match at {
            Some(g) => g < tags.len() && tags[g as int].tag@ == name@,
            None => !tag_names(tags_view(tags@)).contains(name@),
        },
{
    let ghost all = tag_names(tags_view(tags@));
    let mut g: usize = 0;
    while g < tags.len()
        invariant
            g <= tags.len(),
            all == tag_names(tags_view(tags@)),
            forall|k: int| 0 <= k < g ==> all[k] != name@,
        decreases tags.len() - g,
    {
        if tags[g].tag == *name {
            return Some(g);
        }
        assert(all[g as int] == tags[g as int].tag@);
        g += 1;
    }
    None
}

/// Groups rows by the name of their tag: one tag for each name, in the order in which the
/// names first occur, each with the pairings of all the rows of its name, in their order,
/// and with the colour of the first of them.
pub fn group_rows(rows: &Vec<TagRow>) -> (tags: Vec<Tag>)
    ensures
        is_grouping(tags_view(tags@), tag_rows(rows@)),
        tag_names(tags_view(tags@)) == names_before(tag_rows(rows@), rows.len() as int),
{
    let ghost all = tag_rows(rows@);
    let mut tags: Vec<Tag> = Vec::new();
    let mut i: usize = 0;
    assert(tag_names(tags_view(tags@)) =~= Seq::empty());
    while i < rows.len()
        invariant
            i <= rows.len(),
            all == tag_rows(rows@),
            groups_before(tags_view(tags@), all, i as int),
            tag_names(tags_view(tags@)) == names_before(all, i as int),
        decreases rows.len() - i,
    {
        let ghost before = tags_view(tags@);
        let ghost row = all[i as int];
        assert(row == rows[i as int]@);
        match find_tag(&tags, &rows[i].tag) {
            Some(g) => {
                tags[g].maps.push(rows[i].map);
                let ghost after = tags_view(tags@);
                assert(after.len() == before.len());
                assert forall|k: int| 0 <= k < after.len() implies (#[trigger] after[k]).tag
                    == before[k].tag && after[k].color == before[k].color && after[k].maps == (if k
                    == g {
                    before[k].maps.push(row.map)
                } else {
                    before[k].maps
                }) by {}
                assert(tag_names(after) =~= tag_names(before));
                assert(tag_names(before)[g as int] == row.tag);
                assert(names_before(all, i as int).contains(row.tag));
                assert forall|k: int|
                    #![trigger after[k]]
                    0 <= k < after.len() implies {
                    &&& after[k].maps == maps_before(all, i + 1, after[k].tag)
                    &&& exists|f: int|
                        f < i + 1 && is_first_with_name(all, after[k].tag, f) && after[k].color
                            == (#[trigger] all[f]).color
                } by {
                    let f = choose|f: int|
                        f < i && is_first_with_name(all, before[k].tag, f) && before[k].color
                            == (#[trigger] all[f]).color;
                    assert(f < i + 1 && is_first_with_name(all, after[k].tag, f) && after[k].color
                        == all[f].color);
                    if k != g {
                        assert(tag_names(before)[k] != tag_names(before)[g as int]);
                    }
                }
                assert forall|j: int| 0 <= j < i + 1 && j < all.len() implies tag_names(
                    after,
                ).contains((#[trigger] all[j]).tag) by {
                    if j == i {
                        assert(tag_names(after)[g as int] == row.tag);
                    }
                }
            },
            None => {
                let mut maps: Vec<TagMap> = Vec::new();
                maps.push(rows[i].map);
                tags.push(Tag { tag: rows[i].tag.clone(), color: rows[i].color.clone(), maps });
                let ghost after = tags_view(tags@);
                let ghost fresh = TagView {
                    tag: row.tag,
                    color: row.color,
                    maps: Seq::<TagMap>::empty().push(row.map),
                };
                assert(after =~= before.push(fresh));
                assert(tag_names(after) =~= tag_names(before).push(row.tag));
                assert forall|j: int| 0 <= j < i implies (#[trigger] all[j]).tag != row.tag by {
                    assert(tag_names(before).contains(all[j].tag));
                }
                proof {
                    lemma_maps_before_absent(all, i as int, row.tag);
                }
                assert(is_first_with_name(all, row.tag, i as int));
                assert forall|k: int|
                    #![trigger after[k]]
                    0 <= k < after.len() implies {
                    &&& after[k].maps == maps_before(all, i + 1, after[k].tag)
                    &&& exists|f: int|
                        f < i + 1 && is_first_with_name(all, after[k].tag, f) && after[k].color
                            == (#[trigger] all[f]).color
                } by {
                    if k < before.len() {
                        let f = choose|f: int|
                            f < i && is_first_with_name(all, before[k].tag, f) && before[k].color
                                == (#[trigger] all[f]).color;
                        assert(f < i + 1 && is_first_with_name(all, after[k].tag, f)
                            && after[k].color == all[f].color);
                        assert(tag_names(before)[k] == before[k].tag);
                        assert(tag_names(before).contains(before[k].tag));
                    } else {
                        assert(i < i + 1 && is_first_with_name(all, after[k].tag, i as int)
                            && after[k].color == all[i as int].color);
                    }
                }
                assert forall|j: int| 0 <= j < i + 1 && j < all.len() implies tag_names(
                    after,
                ).contains((#[trigger] all[j]).tag) by {
                    if j == i {
                        assert(tag_names(after)[before.len() as int] == row.tag);
                    } else {
                        let w = choose|w: int|
                            0 <= w < tag_names(before).len() && tag_names(before)[w] == all[j].tag;
                        assert(tag_names(after)[w] == all[j].tag);
                    }
                }
                assert(tag_names(after).no_duplicates());
            },
        }
        i += 1;
    }
    tags
}

/// The place at which a tag of the given name goes into a list that is in ascending order:
/// before the first tag whose name it comes before or equals.
fn place_for(tags: &Vec<Tag>, name: &String) -> (p: usize)
    ensures
        p <= tags.len(),
        forall|q: int| 0 <= q < p ==> name_le(#[trigger] tags[q].tag@, name@),
        p < tags.len() ==> name_le(name@, tags[p as int].tag@),
{
    let mut p: usize = 0;
    while p < tags.len() && !name_precedes(name.as_str(), tags[p].tag.as_str())
        invariant
            p <= tags.len(),
            forall|q: int| 0 <= q < p ==> name_le(#[trigger] tags[q].tag@, name@),
        decreases tags.len() - p,
    {
        proof {
            lemma_name_le_total(name@, tags[p as int].tag@);
        }
        p += 1;
    }
    p
}

/// `t` stands in `s` at place `from` or behind it.
pub open spec fn occurs(s: Seq<TagView>, from: int, t: TagView) -> bool {
    exists|j: int| from <= j && 0 <= j < s.len() && #[trigger] s[j] == t
}

/// `out` holds the tags of `all` from place `from` on, each as it is there and none
/// besides; where no name occurs twice in `all`, none does in `out`.
pub open spec fn holds_tail(out: Seq<TagView>, all: Seq<TagView>, from: int) -> bool {
    &&& forall|p: int| 0 <= p < out.len() ==> occurs(all, from, #[trigger] out[p])
    &&& forall|j: int| from <= j && 0 <= j < all.len() ==> occurs(out, 0, #[trigger] all[j])
    &&& tag_names(all).no_duplicates() ==> tag_names(out).no_duplicates()
}

/// What stands where after an insertion.
proof fn lemma_insert_places(before: Seq<TagView>, t: TagView, p: int)
    requires
        0 <= p <= before.len(),
    ensures
        before.insert(p, t).len() == before.len() + 1,
        forall|q: int| 0 <= q < p ==> #[trigger] before.insert(p, t)[q] == before[q],
        before.insert(p, t)[p] == t,
        forall|q: int| p < q <= before.len() ==> #[trigger] before.insert(p, t)[q] == before[q - 1],
{
}

/// Taking in the tag just before the tail keeps `holds_tail`, wherever it is put.
proof fn lemma_holds_tail_insert(
    before: Seq<TagView>,
    after: Seq<TagView>,
    all: Seq<TagView>,
    n: int,
    p: int,
)
    requires
        0 <= n < all.len(),
        0 <= p <= before.len(),
        after == before.insert(p, all[n]),
        holds_tail(before, all, n + 1),
    ensures
        holds_tail(after, all, n),
{
    lemma_insert_places(before, all[n], p);
    assert forall|q: int| 0 <= q < after.len() implies occurs(all, n, #[trigger] after[q]) by {
        if q == p {
            assert(all[n] == after[q]);
        } else {
            let o = if q < p { q } else { q - 1 };
            assert(after[q] == before[o]);
            assert(occurs(all, n + 1, before[o]));
            let j = choose|j: int| n + 1 <= j && 0 <= j < all.len() && #[trigger] all[j] == before[o];
            assert(all[j] == after[q]);
        }
    }
    assert forall|j: int| n <= j && 0 <= j < all.len() implies occurs(
        after,
        0,
        #[trigger] all[j],
    ) by {
        if j == n {
            assert(after[p] == all[j]);
        } else {
            assert(occurs(before, 0, all[j]));
            let q = choose|q: int| 0 <= q && 0 <= q < before.len() && #[trigger] before[q] == all[j];
            if q < p {
                assert(after[q] == all[j]);
            } else {
                assert(after[q + 1] == all[j]);
            }
        }
    }
    if tag_names(all).no_duplicates() {
        lemma_no_duplicates_insert(before, after, all, n, p);
    }
}

/// Where no name occurs twice in `all`, taking in the tag just before the tail brings no
/// name in twice.
proof fn lemma_no_duplicates_insert(
    before: Seq<TagView>,
    after: Seq<TagView>,
    all: Seq<TagView>,
    n: int,
    p: int,
)
    requires
        0 <= n < all.len(),
        0 <= p <= before.len(),
        after == before.insert(p, all[n]),
        forall|q: int| 0 <= q < before.len() ==> occurs(all, n + 1, #[trigger] before[q]),
        tag_names(all).no_duplicates(),
        tag_names(before).no_duplicates(),
    ensures
        tag_names(after).no_duplicates(),
{
    lemma_insert_places(before, all[n], p);
    assert forall|q: int| 0 <= q < before.len() implies (#[trigger] before[q]).tag
        != all[n].tag by {
        assert(occurs(all, n + 1, before[q]));
        let j = choose|j: int| n + 1 <= j && 0 <= j < all.len() && #[trigger] all[j] == before[q];
        assert(tag_names(all)[j] != tag_names(all)[n]);
    }
    assert forall|a: int, b: int|
        0 <= a < after.len() && 0 <= b < after.len() && a != b implies tag_names(after)[a]
        != tag_names(after)[b] by {
        let oa = if a < p { a } else { a - 1 };
        let ob = if b < p { b } else { b - 1 };
        if a == p {
            assert(after[b] == before[ob]);
        } else if b == p {
            assert(after[a] == before[oa]);
        } else {
            assert(after[a] == before[oa]);
            assert(after[b] == before[ob]);
            assert(tag_names(before)[oa] != tag_names(before)[ob]);
        }
    }
}

/// Putting a tag at a place where all before it come first and the tag there comes after
/// keeps the ascending order.
proof fn lemma_ascending_insert(before: Seq<TagView>, after: Seq<TagView>, t: TagView, p: int)
    requires
        0 <= p <= before.len(),
        after == before.insert(p, t),
        ascending(tag_names(before)),
        forall|q: int| 0 <= q < p ==> name_le((#[trigger] before[q]).tag, t.tag),
        p < before.len() ==> name_le(t.tag, before[p].tag),
    ensures
        ascending(tag_names(after)),
{
    assert forall|a: int, b: int| 0 <= a < b < after.len() implies name_le(
        tag_names(after)[a],
        tag_names(after)[b],
    ) by {
        if b < p {
            assert(name_le(tag_names(before)[a], tag_names(before)[b]));
        } else if b == p {
            assert(after[a] == before[a]);
        } else if a < p {
            assert(name_le(tag_names(before)[a], tag_names(before)[b - 1]));
        } else if a == p {
            assert(after[b] == before[b - 1]);
            if p < b - 1 {
                assert(name_le(tag_names(before)[p], tag_names(before)[b - 1]));
                lemma_name_le_transitive(t.tag, before[p].tag, before[b - 1].tag);
            }
        } else {
            assert(name_le(tag_names(before)[a - 1], tag_names(before)[b - 1]));
        }
    }
}

/// Puts a tag into a list that is in ascending order, at its place in that order.
fn insert_in_order(out: &mut Vec<Tag>, tag: Tag) -> (p: usize)
    requires
        ascending(tag_names(tags_view(old(out)@))),
    ensures
        p <= old(out).len(),
        tags_view(final(out)@) == tags_view(old(out)@).insert(p as int, tag@),
        ascending(tag_names(tags_view(final(out)@))),
{
    let ghost before = tags_view(out@);
    let p = place_for(out, &tag.tag);
    let ghost t = tag@;
    out.insert(p, tag);
    proof {
        assert(tags_view(out@) =~= before.insert(p as int, t));
        assert forall|q: int| 0 <= q < p implies name_le((#[trigger] before[q]).tag, t.tag) by {
            assert(before[q].tag == old(out)[q].tag@);
        }
        lemma_ascending_insert(before, tags_view(out@), t, p as int);
    }
    p
}

/// Puts tags in the ascending order of their names: the same tags, each as it was.
pub fn sort_by_name(tags: Vec<Tag>) -> (out: Vec<Tag>)
    ensures
        out.len() == tags.len(),
        ascending(tag_names(tags_view(out@))),
        holds_tail(tags_view(out@), tags_view(tags@), 0),
{
    let ghost all = tags_view(tags@);
    let mut rest = tags;
    let mut out: Vec<Tag> = Vec::new();
    assert(tag_names(tags_view(out@)) =~= Seq::empty());
    while rest.len() > 0
        invariant
            rest.len() + out.len() == all.len(),
            forall|k: int| 0 <= k < rest.len() ==> (#[trigger] tags_view(rest@)[k]) == all[k],
            ascending(tag_names(tags_view(out@))),
            holds_tail(tags_view(out@), all, rest.len() as int),
        decreases rest.len(),
    {
        let ghost rest_before = tags_view(rest@);
        let ghost before = tags_view(out@);
        let ghost n = rest.len() - 1;
        match rest.pop() {
            Some(tag) => {
                assert(tag@ == rest_before[n]);
                let p = insert_in_order(&mut out, tag);
                proof {
                    assert forall|k: int| 0 <= k < rest.len() implies (#[trigger] tags_view(
                        rest@,
                    )[k]) == all[k] by {
                        assert(tags_view(rest@)[k] == rest_before[k]);
                    }
                    lemma_holds_tail_insert(before, tags_view(out@), all, n, p as int);
                }
            },
            None => {},
        }
    }
    out
}

/// Gathers the rows of the join into tags: one tag for each name that occurs, with the
/// pairings of all the rows of that name in the order of the rows and with the colour of
/// the first of them; the tags in the ascending order of their names.
pub fn group_tags(rows: &Vec<TagRow>) -> (tags: Vec<Tag>)
    ensures
        is_grouping(tags_view(tags@), tag_rows(rows@)),
        ascending(tag_names(tags_view(tags@))),
        tags.len() == names_before(tag_rows(rows@), rows.len() as int).len(),
{
    let grouped = group_rows(rows);
    let ghost g = tags_view(grouped@);
    let ghost all = tag_rows(rows@);
    let tags = sort_by_name(grouped);
    let ghost r = tags_view(tags@);
    proof {
        assert forall|j: int| 0 <= j < all.len() implies tag_names(r).contains(
            (#[trigger] all[j]).tag,
        ) by {
            let w = choose|w: int| 0 <= w < tag_names(g).len() && tag_names(g)[w] == all[j].tag;
            assert(occurs(r, 0, g[w]));
            let p = choose|p: int| 0 <= p && 0 <= p < r.len() && #[trigger] r[p] == g[w];
            assert(tag_names(r)[p] == all[j].tag);
        }
        assert forall|k: int|
            #![trigger r[k]]
            0 <= k < r.len() implies {
            &&& r[k].maps == maps_before(all, all.len() as int, r[k].tag)
            &&& exists|f: int|
                f < all.len() && is_first_with_name(all, r[k].tag, f) && r[k].color
                    == (#[trigger] all[f]).color
        } by {
            assert(occurs(g, 0, r[k]));
            let w = choose|w: int| 0 <= w && 0 <= w < g.len() && #[trigger] g[w] == r[k];
            assert(r[k] == g[w]);
        }
    }
    tags
}

/// The greatest number of rows of the join that the tags are gathered from.
pub const ROW_LIMIT: usize = 500;

/// The note ids never rise from one row to the next.
pub open spec fn rows_never_rise(rows: Seq<TagRowView>) -> bool {
    forall|a: int, b: int| 0 <= a < b < rows.len() ==> rows[a].map.note_id >= rows[b].map.note_id
}

/// The note ids never rise from one pairing to the next.
pub open spec fn never_rising(maps: Seq<TagMap>) -> bool {
    forall|a: int, b: int| 0 <= a < b < maps.len() ==> maps[a].note_id >= maps[b].note_id
}

/// Where the note ids of the rows never rise, those of the pairings of one name never rise
/// either, and none of them is below the note id of a row that comes later.
pub proof fn lemma_maps_never_rise(rows: Seq<TagRowView>, n: int, name: Seq<char>)
    requires
        rows_never_rise(rows),
        0 <= n <= rows.len(),
    ensures
        never_rising(maps_before(rows, n, name)),
        maps_before(rows, n, name).len() <= n,
        forall|k: int, j: int|
            0 <= k < maps_before(rows, n, name).len() && n - 1 <= j < rows.len() && 0 <= j
                ==> maps_before(rows, n, name)[k].note_id >= rows[j].map.note_id,
    decreases n,
{
    if n > 0 {
        lemma_maps_never_rise(rows, n - 1, name);
        let earlier = maps_before(rows, n - 1, name);
        let now = maps_before(rows, n, name);
        assert forall|k: int, j: int|
            0 <= k < now.len() && n - 1 <= j < rows.len() && 0 <= j implies now[k].note_id
            >= rows[j].map.note_id by {
            if k < earlier.len() {
                if n >= 2 {
                    assert(earlier[k].note_id >= rows[n - 2].map.note_id);
                    assert(rows[n - 2].map.note_id >= rows[j].map.note_id);
                }
            } else {
                assert(now[k] == rows[n - 1].map);
            }
        }
        assert forall|a: int, b: int| 0 <= a < b < now.len() implies now[a].note_id
            >= now[b].note_id by {
            if b == earlier.len() {
                assert(now[b] == rows[n - 1].map);
                if n >= 2 {
                    assert(earlier[a].note_id >= rows[n - 2].map.note_id);
                    assert(rows[n - 2].map.note_id >= rows[n - 1].map.note_id);
                }
            }
        }
    }
}

/// There are no more names than rows.
pub proof fn lemma_names_before_len(rows: Seq<TagRowView>, n: int)
    requires
        0 <= n <= rows.len(),
    ensures
        names_before(rows, n).len() <= n,
    decreases n,
{
    if n > 0 {
        lemma_names_before_len(rows, n - 1);
    }
}

/// Whether there are no more rows than the limit, and their note ids never rise.
pub fn check_rows(rows: &Vec<TagRow>) -> (ok: bool)
    ensures
        ok == (rows.len() <= ROW_LIMIT && rows_never_rise(tag_rows(rows@))),
{
    if rows.len() > ROW_LIMIT {
        return false;
    }
    let ghost all = tag_rows(rows@);
    let mut i: usize = 1;
    while i < rows.len()
        invariant
            1 <= i,
            all == tag_rows(rows@),
            forall|a: int, b: int|
                0 <= a < b < i && b < all.len() ==> all[a].map.note_id >= all[b].map.note_id,
        decreases rows.len() - i,
    {
        assert(all[i - 1].map == rows[i - 1].map);
        assert(all[i as int].map == rows[i as int].map);
        if rows[i - 1].map.note_id < rows[i].map.note_id {
            return false;
        }
        i += 1;
    }
    true
}

} // verus!
