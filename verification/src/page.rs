use crate::models::{names, Note, NoteView};
use crate::rows::notes_view;
use crate::text::contains_name;
use std::collections::HashMap;
use vstd::prelude::*;

verus! {

/// The greatest number of notes in a page.
pub const PAGE_LIMIT: usize = 500;

/// `k` is the last place in `notes` that holds a note with the id `id`.
pub open spec fn is_last_with_id(notes: Seq<NoteView>, id: int, k: int) -> bool {
    &&& 0 <= k < notes.len()
    &&& notes[k].id == id
    &&& forall|j: int| k < j < notes.len() ==> (#[trigger] notes[j]).id != id
}

/// One of the first `n` pairs gives the tag `t` to the note at place `k`: it names the
/// note's id, and no later note in the list has that id.
pub open spec fn gives_before(
    notes: Seq<NoteView>,
    pairs: Seq<(i64, Seq<char>)>,
    n: int,
    k: int,
    t: Seq<char>,
) -> bool {
    exists|j: int|
        0 <= j < n && j < pairs.len() && (#[trigger] pairs[j]).1 == t && is_last_with_id(
            notes,
            pairs[j].0 as int,
            k,
        )
}

/// One of the pairs gives the tag `t` to the note at place `k`.
pub open spec fn pair_gives(
    notes: Seq<NoteView>,
    pairs: Seq<(i64, Seq<char>)>,
    k: int,
    t: Seq<char>,
) -> bool {
    gives_before(notes, pairs, pairs.len() as int, k, t)
}

/// The views of a list of pairs of a note's id and a tag's name, in order.
pub open spec fn pairs_view(pairs: Seq<(i64, String)>) -> Seq<(i64, Seq<char>)> {
    Seq::new(pairs.len(), |i: int| (pairs[i].0, pairs[i].1@))
}

/// `page` is what comes of `notes` and `pairs`: the notes in the opposite order, each as
/// it was but for its tags, which are those it had together with those that the pairs give
/// it; a note whose tags were a set has a set again.
pub open spec fn is_page(
    page: Seq<NoteView>,
    notes: Seq<NoteView>,
    pairs: Seq<(i64, Seq<char>)>,
) -> bool {
    &&& page.len() == notes.len()
    &&& forall|k: int|
        #![trigger page[k]]
        0 <= k < page.len() ==> {
            let source = notes[notes.len() - 1 - k];
            &&& page[k] == source.with_tags(page[k].tags)
            &&& source.wf() ==> page[k].wf()
            &&& forall|t: Seq<char>|
                #![trigger page[k].tags.contains(t)]
                page[k].tags.contains(t) <==> source.tags.contains(t) || pair_gives(
                    notes,
                    pairs,
                    notes.len() - 1 - k,
                    t,
                )
        }
}

/// The ids fall strictly from each note to the next.
pub open spec fn falling_ids(notes: Seq<NoteView>) -> bool {
    forall|a: int, b: int| 0 <= a < b < notes.len() ==> notes[a].id > notes[b].id
}

/// The ids rise strictly from each note to the next.
pub open spec fn rising_ids(notes: Seq<NoteView>) -> bool {
    forall|a: int, b: int| 0 <= a < b < notes.len() ==> notes[a].id < notes[b].id
}

/// What a selection of notes for the ids from `min_id` to `max_id` looks like: no more
/// notes than a page holds, each with an id in the range, by falling id.
pub open spec fn is_selection(notes: Seq<NoteView>, min_id: int, max_id: int) -> bool {
    &&& notes.len() <= PAGE_LIMIT
    &&& falling_ids(notes)
    &&& forall|k: int| 0 <= k < notes.len() ==> min_id <= (#[trigger] notes[k]).id <= max_id
}

/// A selection by falling id gives a page by rising id, of as many notes and with the
/// same ids: the page of a selection that was cut off at its greatest ids holds those ids,
/// oldest first.
pub proof fn lemma_page_rises(
    page: Seq<NoteView>,
    notes: Seq<NoteView>,
    pairs: Seq<(i64, Seq<char>)>,
)
    requires
        is_page(page, notes, pairs),
        falling_ids(notes),
    ensures
        rising_ids(page),
        page.len() == notes.len(),
        forall|k: int| 0 <= k < page.len() ==> (#[trigger] page[k]).id == notes[notes.len() - 1 - k].id,
{
    assert forall|k: int| 0 <= k < page.len() implies (#[trigger] page[k]).id == notes[notes.len()
        - 1 - k].id by {
        assert(page[k] == notes[notes.len() - 1 - k].with_tags(page[k].tags));
    }
    assert forall|a: int, b: int| 0 <= a < b < page.len() implies page[a].id < page[b].id by {
        assert(page[a].id == notes[notes.len() - 1 - a].id);
        assert(page[b].id == notes[notes.len() - 1 - b].id);
    }
}

/// A note that was selected without tags, under an id that no other selected note has,
/// stands in the page with exactly the tags that the pairs name for its id: where those are
/// the tags of a text, the note's tags are, as a set, the tags of that text.
pub proof fn lemma_paired_tags_come_back(
    page: Seq<NoteView>,
    notes: Seq<NoteView>,
    pairs: Seq<(i64, Seq<char>)>,
    m: int,
    tags: Seq<Seq<char>>,
)
    requires
        is_page(page, notes, pairs),
        0 <= m < notes.len(),
        notes[m].tags.len() == 0,
        forall|j: int| 0 <= j < notes.len() && j != m ==> (#[trigger] notes[j]).id != notes[m].id,
        forall|t: Seq<char>|
            tags.contains(t) <==> exists|j: int|
                0 <= j < pairs.len() && (#[trigger] pairs[j]).0 == notes[m].id && pairs[j].1 == t,
    ensures
        page[notes.len() - 1 - m].tag_set() == tags.to_set(),
        page[notes.len() - 1 - m].wf(),
        page[notes.len() - 1 - m].id == notes[m].id,
{
    let k = notes.len() - 1 - m;
    let out = page[k];
    assert(out == notes[m].with_tags(out.tags));
    assert(is_last_with_id(notes, notes[m].id, m));
    assert forall|t: Seq<char>| out.tags.contains(t) <==> tags.contains(t) by {
        assert(out.tags.contains(t) <==> notes[m].tags.contains(t) || pair_gives(
            notes,
            pairs,
            m,
            t,
        ));
        if pair_gives(notes, pairs, m, t) {
            let j = choose|j: int|
                0 <= j < pairs.len() && j < pairs.len() && (#[trigger] pairs[j]).1 == t
                    && is_last_with_id(notes, pairs[j].0 as int, m);
            assert(pairs[j].0 == notes[m].id && pairs[j].1 == t);
        }
        if tags.contains(t) {
            let j = choose|j: int|
                0 <= j < pairs.len() && (#[trigger] pairs[j]).0 == notes[m].id && pairs[j].1 == t;
            assert(pairs[j].1 == t && is_last_with_id(notes, pairs[j].0 as int, m));
        }
    }
    assert(out.tags.to_set() =~= tags.to_set());
}

/// Attaches a tag to a note unless the note has it already.
pub fn attach_tag(note: &mut Note, tag: &String)
    ensures
        final(note)@ == old(note)@.with_tags(final(note)@.tags),
        old(note)@.wf() ==> final(note)@.wf(),
        forall|t: Seq<char>|
            #![trigger final(note)@.tags.contains(t)]
            final(note)@.tags.contains(t) <==> old(note)@.tags.contains(t) || t == tag@,
{
    let ghost before = names(note.tags@);
    if !contains_name(&note.tags, tag) {
        note.tags.push(tag.clone());
        assert(names(note.tags@) =~= before.push(tag@));
        assert forall|t: Seq<char>|
            #![trigger names(note.tags@).contains(t)]
            names(note.tags@).contains(t) <==> before.contains(t) || t == tag@ by {
            if before.contains(t) {
                let i = choose|i: int| 0 <= i < before.len() && before[i] == t;
                assert(names(note.tags@)[i] == t);
            }
            if t == tag@ {
                assert(names(note.tags@)[before.len() as int] == t);
            }
        }
    }
}

/// Maps each id that occurs in `notes` to the last place that holds it.
fn index_by_id(notes: &Vec<Note>) -> (index: HashMap<i64, usize>)
    ensures
        forall|id: i64| #[trigger]
            index@.contains_key(id) <==> exists|k: int|
                0 <= k < notes.len() && (#[trigger] notes_view(notes@)[k]).id == id,
        forall|id: i64| #[trigger]
            index@.contains_key(id) ==> is_last_with_id(
                notes_view(notes@),
                id as int,
                index@[id] as int,
            ),
{
    broadcast use vstd::std_specs::hash::group_hash_axioms;

    let ghost all = notes_view(notes@);
    let mut index: HashMap<i64, usize> = HashMap::new();
    let mut i: usize = 0;
    while i < notes.len()
        invariant
            i <= notes.len(),
            all == notes_view(notes@),
            forall|id: i64| #[trigger]
                index@.contains_key(id) <==> exists|k: int|
                    0 <= k < i && (#[trigger] all[k]).id == id,
            forall|id: i64| #[trigger]
                index@.contains_key(id) ==> 0 <= index@[id] < i && all[index@[id] as int].id
                    == id && forall|j: int|
                    index@[id] < j < i ==> (#[trigger] all[j]).id != id,
        decreases notes.len() - i,
    {
        let ghost before = index@;
        let id = notes[i].id;
        index.insert(id, i);
        assert(all[i as int].id == id);
        assert forall|other: i64| #[trigger]
            index@.contains_key(other) <==> exists|k: int|
                0 <= k < i + 1 && (#[trigger] all[k]).id == other by {
            if other != id {
                if before.contains_key(other) {
                    let k = choose|k: int| 0 <= k < i && (#[trigger] all[k]).id == other;
                    assert(0 <= k < i + 1 && all[k].id == other);
                }
                if exists|k: int| 0 <= k < i + 1 && (#[trigger] all[k]).id == other {
                    let k = choose|k: int| 0 <= k < i + 1 && (#[trigger] all[k]).id == other;
                    assert(k < i);
                }
            }
        }
        i += 1;
    }
    index
}

/// The notes in the opposite order.
fn reversed(notes: Vec<Note>) -> (out: Vec<Note>)
    ensures
        out.len() == notes.len(),
        forall|k: int|
            0 <= k < out.len() ==> (#[trigger] notes_view(out@)[k]) == notes_view(
                notes@,
            )[notes.len() - 1 - k],
{
    let ghost all = notes_view(notes@);
    let mut rest = notes;
    let mut out: Vec<Note> = Vec::new();
    while rest.len() > 0
        invariant
            rest.len() + out.len() == all.len(),
            forall|k: int| 0 <= k < rest.len() ==> (#[trigger] notes_view(rest@)[k]) == all[k],
            forall|k: int|
                0 <= k < out.len() ==> (#[trigger] notes_view(out@)[k]) == all[all.len() - 1 - k],
        decreases rest.len(),
    {
        let ghost rest_before = notes_view(rest@);
        let ghost out_before = notes_view(out@);
        match rest.pop() {
            Some(note) => {
                assert(note@ == rest_before[rest_before.len() - 1]);
                out.push(note);
                assert forall|k: int| 0 <= k < rest.len() implies (#[trigger] notes_view(
                    rest@,
                )[k]) == all[k] by {
                    assert(notes_view(rest@)[k] == rest_before[k]);
                }
                assert forall|k: int| 0 <= k < out.len() implies (#[trigger] notes_view(
                    out@,
                )[k]) == all[all.len() - 1 - k] by {
                    if k < out_before.len() {
                        assert(notes_view(out@)[k] == out_before[k]);
                    }
                }
            },
            None => {},
        }
    }
    out
}

/// Gives each note the tags that the pairs name for it.
fn attach_tags(notes: &mut Vec<Note>, pairs: &Vec<(i64, String)>)
    ensures
        final(notes).len() == old(notes).len(),
        forall|k: int|
            #![trigger notes_view(final(notes)@)[k]]
            0 <= k < old(notes).len() ==> {
                let source = notes_view(old(notes)@)[k];
                let out = notes_view(final(notes)@)[k];
                &&& out == source.with_tags(out.tags)
                &&& source.wf() ==> out.wf()
                &&& forall|t: Seq<char>|
                    #![trigger out.tags.contains(t)]
                    out.tags.contains(t) <==> source.tags.contains(t) || pair_gives(
                        notes_view(old(notes)@),
                        pairs_view(pairs@),
                        k,
                        t,
                    )
            },
{
    let ghost all = notes_view(notes@);
    let ghost given = pairs_view(pairs@);
    let index = index_by_id(notes);
    let mut j: usize = 0;
    while j < pairs.len()
        invariant
            j <= pairs.len(),
            notes.len() == all.len(),
            given == pairs_view(pairs@),
            forall|id: i64| #[trigger]
                index@.contains_key(id) <==> exists|k: int|
                    0 <= k < all.len() && (#[trigger] all[k]).id == id,
            forall|id: i64| #[trigger]
                index@.contains_key(id) ==> is_last_with_id(all, id as int, index@[id] as int),
            forall|k: int|
                #![trigger notes_view(notes@)[k]]
                0 <= k < all.len() ==> {
                    let out = notes_view(notes@)[k];
                    &&& out == all[k].with_tags(out.tags)
                    &&& all[k].wf() ==> out.wf()
                    &&& forall|t: Seq<char>|
                        #![trigger out.tags.contains(t)]
                        out.tags.contains(t) <==> all[k].tags.contains(t) || gives_before(
                            all,
                            given,
                            j as int,
                            k,
                            t,
                        )
                },
        decreases pairs.len() - j,
    {
        broadcast use vstd::std_specs::hash::group_hash_axioms;

        let ghost before = notes_view(notes@);
        let id = pairs[j].0;
        assert(given[j as int] == (id, pairs[j as int].1@));
        match index.get(&id) {
            Some(at) => {
                let at: usize = *at;
                attach_tag(&mut notes[at], &pairs[j].1);
                assert forall|k: int|
                    #![trigger notes_view(notes@)[k]]
                    0 <= k < all.len() implies {
                    let out = notes_view(notes@)[k];
                    &&& out == all[k].with_tags(out.tags)
                    &&& all[k].wf() ==> out.wf()
                    &&& forall|t: Seq<char>|
                        #![trigger out.tags.contains(t)]
                        out.tags.contains(t) <==> all[k].tags.contains(t) || gives_before(
                            all,
                            given,
                            j + 1,
                            k,
                            t,
                        )
                } by {
                    let out = notes_view(notes@)[k];
                    let old_out = before[k];
                    if k == at {
                        assert forall|t: Seq<char>|
                            #![trigger out.tags.contains(t)]
                            out.tags.contains(t) <==> all[k].tags.contains(t) || gives_before(
                                all,
                                given,
                                j + 1,
                                k,
                                t,
                            ) by {
                            assert(old_out.tags.contains(t) <==> all[k].tags.contains(t)
                                || gives_before(all, given, j as int, k, t));
                            if gives_before(all, given, j as int, k, t) {
                                let w = choose|w: int|
                                    0 <= w < j && w < given.len() && (#[trigger] given[w]).1 == t
                                        && is_last_with_id(all, given[w].0 as int, k);
                                assert(0 <= w < j + 1 && w < given.len() && given[w].1 == t
                                    && is_last_with_id(all, given[w].0 as int, k));
                            }
                            if t == pairs[j as int].1@ {
                                assert(0 <= j < j + 1 && j < given.len() && given[j as int].1 == t
                                    && is_last_with_id(all, given[j as int].0 as int, k));
                            }
                            if gives_before(all, given, j + 1, k, t) {
                                let w = choose|w: int|
                                    0 <= w < j + 1 && w < given.len() && (#[trigger] given[w]).1
                                        == t && is_last_with_id(all, given[w].0 as int, k);
                                if w < j {
                                    assert(gives_before(all, given, j as int, k, t));
                                }
                            }
                        }
                    } else {
                        assert(out == old_out);
                        assert forall|t: Seq<char>|
                            #![trigger out.tags.contains(t)]
                            out.tags.contains(t) <==> all[k].tags.contains(t) || gives_before(
                                all,
                                given,
                                j + 1,
                                k,
                                t,
                            ) by {
                            assert(old_out.tags.contains(t) <==> all[k].tags.contains(t)
                                || gives_before(all, given, j as int, k, t));
                            if gives_before(all, given, j as int, k, t) {
                                let w = choose|w: int|
                                    0 <= w < j && w < given.len() && (#[trigger] given[w]).1 == t
                                        && is_last_with_id(all, given[w].0 as int, k);
                                assert(0 <= w < j + 1 && w < given.len() && given[w].1 == t
                                    && is_last_with_id(all, given[w].0 as int, k));
                            }
                            if gives_before(all, given, j + 1, k, t) {
                                let w = choose|w: int|
                                    0 <= w < j + 1 && w < given.len() && (#[trigger] given[w]).1
                                        == t && is_last_with_id(all, given[w].0 as int, k);
                                if w < j {
                                    assert(gives_before(all, given, j as int, k, t));
                                } else {
                                    assert(is_last_with_id(all, id as int, k));
                                    assert(is_last_with_id(all, id as int, at as int));
                                    assert(false);
                                }
                            }
                        }
                    }
                }
            },
            None => {
                assert forall|k: int|
                    #![trigger notes_view(notes@)[k]]
                    0 <= k < all.len() implies {
                    let out = notes_view(notes@)[k];
                    forall|t: Seq<char>|
                        #![trigger out.tags.contains(t)]
                        out.tags.contains(t) <==> all[k].tags.contains(t) || gives_before(
                            all,
                            given,
                            j + 1,
                            k,
                            t,
                        )
                } by {
                    let out = notes_view(notes@)[k];
                    assert forall|t: Seq<char>|
                        #![trigger out.tags.contains(t)]
                        out.tags.contains(t) <==> all[k].tags.contains(t) || gives_before(
                            all,
                            given,
                            j + 1,
                            k,
                            t,
                        ) by {
                        assert(out.tags.contains(t) <==> all[k].tags.contains(t) || gives_before(
                            all,
                            given,
                            j as int,
                            k,
                            t,
                        ));
                        if gives_before(all, given, j as int, k, t) {
                            let w = choose|w: int|
                                0 <= w < j && w < given.len() && (#[trigger] given[w]).1 == t
                                    && is_last_with_id(all, given[w].0 as int, k);
                            assert(0 <= w < j + 1 && w < given.len() && given[w].1 == t
                                && is_last_with_id(all, given[w].0 as int, k));
                        }
                        if gives_before(all, given, j + 1, k, t) {
                            let w = choose|w: int|
                                0 <= w < j + 1 && w < given.len() && (#[trigger] given[w]).1 == t
                                    && is_last_with_id(all, given[w].0 as int, k);
                            if w < j {
                                assert(gives_before(all, given, j as int, k, t));
                            } else {
                                assert(all[k].id == id);
                                assert(index@.contains_key(id));
                            }
                        }
                    }
                }
            },
        }
        j += 1;
    }
}

/// Builds the page from the notes as they were selected and the pairs that were looked
/// up for them: each note gets the tags that the pairs name for its id, each tag once, and
/// the order of the notes is turned round, so that a selection by falling id becomes a
/// page by rising id. A pair for an id that no note has is passed over.
pub fn assemble_page(notes: Vec<Note>, pairs: &Vec<(i64, String)>) -> (page: Vec<Note>)
    ensures
        is_page(notes_view(page@), notes_view(notes@), pairs_view(pairs@)),
{
    let ghost all = notes_view(notes@);
    let mut notes = notes;
    attach_tags(&mut notes, pairs);
    let ghost attached = notes_view(notes@);
    let page = reversed(notes);
    assert forall|k: int|
        #![trigger notes_view(page@)[k]]
        0 <= k < page.len() implies {
        let source = all[all.len() - 1 - k];
        let out = notes_view(page@)[k];
        &&& out == source.with_tags(out.tags)
        &&& source.wf() ==> out.wf()
        &&& forall|t: Seq<char>|
            #![trigger out.tags.contains(t)]
            out.tags.contains(t) <==> source.tags.contains(t) || pair_gives(
                all,
                pairs_view(pairs@),
                all.len() - 1 - k,
                t,
            )
    } by {
        assert(notes_view(page@)[k] == attached[all.len() - 1 - k]);
    }
    page
}

/// Whether the notes are a selection for the ids from `min_id` to `max_id`.
pub fn check_selection(notes: &Vec<Note>, min_id: i64, max_id: i64) -> (ok: bool)
    ensures
        ok == is_selection(notes_view(notes@), min_id as int, max_id as int),
{
    if notes.len() > PAGE_LIMIT {
        return false;
    }
    let ghost all = notes_view(notes@);
    let mut i: usize = 0;
    while i < notes.len()
        invariant
            i <= notes.len(),
            all == notes_view(notes@),
            forall|k: int| 0 <= k < i ==> min_id <= (#[trigger] all[k]).id <= max_id,
            forall|a: int, b: int| 0 <= a < b < i ==> all[a].id > all[b].id,
        decreases notes.len() - i,
    {
        let id = notes[i].id;
        assert(all[i as int].id == id);
        if id < min_id || id > max_id {
            return false;
        }
        if i > 0 {
            assert(all[i - 1].id == notes[i - 1].id);
            if notes[i - 1].id <= id {
                return false;
            }
        }
        i += 1;
    }
    true
}

} // verus!
