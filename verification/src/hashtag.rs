use crate::models::names;
use crate::text::{contains_name, string_of, to_chars};
use vstd::prelude::*;
use vstd::string::StringExecFns;

verus! {

/// The characters a tag may hold after its `#`: ASCII letters, digits, `-` and `_`.
pub open spec fn is_tag_char(c: char) -> bool {
    ||| 'a' <= c <= 'z'
    ||| 'A' <= c <= 'Z'
    ||| '0' <= c <= '9'
    ||| c == '-'
    ||| c == '_'
}

/// `c` with an ASCII capital folded to its small letter.
pub open spec fn fold_char(c: char) -> char {
    if 'A' <= c <= 'Z' {
        ((c as u8) + 32) as char
    } else {
        c
    }
}

/// `s` with every ASCII capital folded to its small letter.
pub open spec fn fold_case(s: Seq<char>) -> Seq<char> {
    Seq::new(s.len(), |i: int| fold_char(s[i]))
}

/// The end of the run of tag characters that begins at `i`: the first index from `i` on
/// that holds no tag character, or the length of `s`.
pub open spec fn run_end(s: Seq<char>, i: int) -> int
    decreases s.len() - i,
{
    if 0 <= i < s.len() && is_tag_char(s[i]) {
        run_end(s, i + 1)
    } else {
        i
    }
}

/// A tag begins at `i`: a `#` with at least one tag character behind it.
pub open spec fn starts_tag(s: Seq<char>, i: int) -> bool {
    0 <= i && i + 1 < s.len() && s[i] == '#' && is_tag_char(s[i + 1])
}

/// The tag that begins at `i`: the `#` and the whole run behind it, case-folded.
pub open spec fn tag_at(s: Seq<char>, i: int) -> Seq<char> {
    fold_case(s.subrange(i, run_end(s, i + 1)))
}

/// The tags that begin before index `n`, each once, in the order in which they first occur.
pub open spec fn tags_before(s: Seq<char>, n: int) -> Seq<Seq<char>>
    decreases n,
{
    if n <= 0 {
        Seq::empty()
    } else {
        let earlier = tags_before(s, n - 1);
        if starts_tag(s, n - 1) && !earlier.contains(tag_at(s, n - 1)) {
            earlier.push(tag_at(s, n - 1))
        } else {
            earlier
        }
    }
}

/// The tags of a text, each once, in the order in which they first occur.
pub open spec fn tags_of(s: Seq<char>) -> Seq<Seq<char>> {
    tags_before(s, s.len() as int)
}

/// What a tag's name looks like: `#`, then one or more tag characters, none of them a capital.
pub open spec fn is_tag_name(t: Seq<char>) -> bool {
    &&& t.len() >= 2
    &&& t[0] == '#'
    &&& forall|k: int| 1 <= k < t.len() ==> is_tag_char(#[trigger] t[k]) && !('A' <= t[k] <= 'Z')
}

/// A run ends within the text, at or behind its start, and holds tag characters only.
pub proof fn lemma_run_end(s: Seq<char>, i: int)
    requires
        0 <= i <= s.len(),
    ensures
        i <= run_end(s, i) <= s.len(),
        forall|k: int| i <= k < run_end(s, i) ==> is_tag_char(#[trigger] s[k]),
        run_end(s, i) < s.len() ==> !is_tag_char(s[run_end(s, i)]),
    decreases s.len() - i,
{
    if i < s.len() && is_tag_char(s[i]) {
        lemma_run_end(s, i + 1);
    }
}

/// Folding keeps a tag character a tag character, and leaves no capital.
pub proof fn lemma_fold_char(c: char)
    ensures
        is_tag_char(c) ==> is_tag_char(fold_char(c)),
        !('A' <= fold_char(c) <= 'Z'),
        fold_char(fold_char(c)) == fold_char(c),
        c == '#' ==> fold_char(c) == '#',
{
}

/// Every tag that begins in a text has the shape of a tag name.
pub proof fn lemma_tag_at_is_name(s: Seq<char>, i: int)
    requires
        starts_tag(s, i),
    ensures
        is_tag_name(tag_at(s, i)),
{
    lemma_run_end(s, i + 1);
    let t = tag_at(s, i);
    let e = run_end(s, i + 1);
    assert(e >= i + 2);
    assert(t[0] == fold_char(s[i]));
    assert forall|k: int| 1 <= k < t.len() implies is_tag_char(#[trigger] t[k]) && !('A' <= t[k]
        <= 'Z') by {
        assert(t[k] == fold_char(s[i + k]));
        assert(is_tag_char(s[i + k]));
        lemma_fold_char(s[i + k]);
    }
}

/// The tags that begin before `n` are listed once each, and they are exactly those.
pub proof fn lemma_tags_before(s: Seq<char>, n: int)
    ensures
        tags_before(s, n).no_duplicates(),
        forall|t: Seq<char>| #[trigger]
            tags_before(s, n).contains(t) <==> exists|i: int|
                0 <= i < n && starts_tag(s, i) && tag_at(s, i) == t,
    decreases n,
{
    if n > 0 {
        lemma_tags_before(s, n - 1);
        let earlier = tags_before(s, n - 1);
        let now = tags_before(s, n);
        let t_new = tag_at(s, n - 1);
        if starts_tag(s, n - 1) && !earlier.contains(t_new) {
            assert(now == earlier.push(t_new));
            assert forall|a: int, b: int| 0 <= a < now.len() && 0 <= b < now.len() && a
                != b implies now[a] != now[b] by {
                if a < earlier.len() {
                    assert(earlier.contains(earlier[a]));
                }
                if b < earlier.len() {
                    assert(earlier.contains(earlier[b]));
                }
            }
            assert forall|t: Seq<char>| #[trigger]
                now.contains(t) <==> exists|i: int|
                    0 <= i < n && starts_tag(s, i) && tag_at(s, i) == t by {
                if now.contains(t) {
                    let k = choose|k: int| 0 <= k < now.len() && now[k] == t;
                    if k < earlier.len() {
                        assert(earlier.contains(t));
                        let i = choose|i: int|
                            0 <= i < n - 1 && starts_tag(s, i) && tag_at(s, i) == t;
                        assert(0 <= i < n && starts_tag(s, i) && tag_at(s, i) == t);
                    } else {
                        assert(0 <= n - 1 < n && starts_tag(s, n - 1) && tag_at(s, n - 1) == t);
                    }
                }
                if exists|i: int| 0 <= i < n && starts_tag(s, i) && tag_at(s, i) == t {
                    let i = choose|i: int| 0 <= i < n && starts_tag(s, i) && tag_at(s, i) == t;
                    if i < n - 1 {
                        assert(earlier.contains(t));
                        let k = choose|k: int| 0 <= k < earlier.len() && earlier[k] == t;
                        assert(now[k] == t);
                    } else {
                        assert(now[now.len() - 1] == t);
                    }
                }
            }
        } else {
            assert(now == earlier);
            assert forall|t: Seq<char>| #[trigger]
                now.contains(t) <==> exists|i: int|
                    0 <= i < n && starts_tag(s, i) && tag_at(s, i) == t by {
                if exists|i: int| 0 <= i < n && starts_tag(s, i) && tag_at(s, i) == t {
                    let i = choose|i: int| 0 <= i < n && starts_tag(s, i) && tag_at(s, i) == t;
                    if i == n - 1 {
                        assert(earlier.contains(t));
                    }
                }
                if now.contains(t) {
                    let i = choose|i: int|
                        0 <= i < n - 1 && starts_tag(s, i) && tag_at(s, i) == t;
                    assert(0 <= i < n && starts_tag(s, i) && tag_at(s, i) == t);
                }
            }
        }
    } else {
        assert forall|t: Seq<char>| #[trigger]
            tags_before(s, n).contains(t) <==> exists|i: int|
                0 <= i < n && starts_tag(s, i) && tag_at(s, i) == t by {}
    }
}

/// The tags of a text form a set: none is listed twice, a name is listed if and only if a
/// tag of that name begins somewhere in the text, and each has the shape of a tag name.
pub proof fn lemma_tags_of(s: Seq<char>)
    ensures
        tags_of(s).no_duplicates(),
        forall|t: Seq<char>| #[trigger]
            tags_of(s).contains(t) <==> exists|i: int| starts_tag(s, i) && tag_at(s, i) == t,
        forall|k: int| 0 <= k < tags_of(s).len() ==> is_tag_name(#[trigger] tags_of(s)[k]),
{
    let n = s.len() as int;
    lemma_tags_before(s, n);
    assert forall|t: Seq<char>| #[trigger]
        tags_of(s).contains(t) <==> exists|i: int| starts_tag(s, i) && tag_at(s, i) == t by {
        if exists|i: int| starts_tag(s, i) && tag_at(s, i) == t {
            let i = choose|i: int| starts_tag(s, i) && tag_at(s, i) == t;
            assert(0 <= i < n && starts_tag(s, i) && tag_at(s, i) == t);
        }
        if tags_of(s).contains(t) {
            let i = choose|i: int| 0 <= i < n && starts_tag(s, i) && tag_at(s, i) == t;
            assert(starts_tag(s, i) && tag_at(s, i) == t);
        }
    }
    assert forall|k: int| 0 <= k < tags_of(s).len() implies is_tag_name(
        #[trigger] tags_of(s)[k],
    ) by {
        let t = tags_of(s)[k];
        assert(tags_of(s).contains(t));
        let i = choose|i: int| starts_tag(s, i) && tag_at(s, i) == t;
        lemma_tag_at_is_name(s, i);
    }
}

/// Whether `c` may stand in a tag behind the `#`.
pub fn tag_char(c: char) -> (b: bool)
    ensures
        b == is_tag_char(c),
{
    (c >= 'a' && c <= 'z') || (c >= 'A' && c <= 'Z') || (c >= '0' && c <= '9') || c == '-' || c
        == '_'
}

/// Folds an ASCII capital to its small letter and leaves every other character as it is.
pub fn to_lower(c: char) -> (r: char)
    ensures
        r == fold_char(c),
{
    if c >= 'A' && c <= 'Z' {
        ((c as u8) + 32) as char
    } else {
        c
    }
}

/// The name of a tag from what follows its `#`.
pub fn tag_name(naked: &str) -> (name: String)
    ensures
        name@ == seq!['#'] + naked@,
{
    let mut name = String::new();
    name.push('#');
    name.append(naked);
    assert(name@ =~= seq!['#'] + naked@);
    name
}

/// What follows the first character of a tag's name; nothing for the empty name.
pub fn naked_name(name: &str) -> (naked: String)
    ensures
        naked@ == (if name@.len() == 0 {
            name@
        } else {
            name@.subrange(1, name@.len() as int)
        }),
{
    let chars = to_chars(name);
    if chars.len() == 0 {
        let naked = String::new();
        assert(naked@ =~= name@);
        naked
    } else {
        string_of(&chars, 1, chars.len())
    }
}

/// Reads the tag that begins at `start`.
fn read_tag(chars: &Vec<char>, start: usize) -> (tag: String)
    requires
        starts_tag(chars@, start as int),
    ensures
        tag@ == tag_at(chars@, start as int),
{
    let ghost s = chars@;
    let mut tag = String::new();
    tag.push('#');
    assert(start + 1 < chars.len());
    let mut j: usize = start + 1;
    assert(tag@ =~= fold_case(s.subrange(start as int, j as int)));
    while j < chars.len() && tag_char(chars[j])
        invariant
            s == chars@,
            start < j <= chars.len(),
            tag@ == fold_case(s.subrange(start as int, j as int)),
            run_end(s, j as int) == run_end(s, start + 1),
        decreases chars.len() - j,
    {
        tag.push(to_lower(chars[j]));
        j += 1;
        assert(tag@ =~= fold_case(s.subrange(start as int, j as int)));
    }
    tag
}

/// Extracts the tags of a text: every `#` that is followed by one or more letters, digits,
/// hyphens or underscores, together with the whole run of them, case-folded; each name once,
/// in the order in which the names first occur.
pub fn parse_tags(text: &str) -> (tags: Vec<String>)
    ensures
        names(tags@) == tags_of(text@),
{
    let chars = to_chars(text);
    let ghost s = chars@;
    let mut tags: Vec<String> = Vec::new();
    let mut i: usize = 0;
    assert(names(tags@) =~= tags_before(s, 0));
    while i < chars.len()
        invariant
            s == chars@,
            s == text@,
            i <= chars.len(),
            names(tags@) == tags_before(s, i as int),
        decreases chars.len() - i,
    {
        if chars[i] == '#' && i + 1 < chars.len() && tag_char(chars[i + 1]) {
            let tag = read_tag(&chars, i);
            if !contains_name(&tags, &tag) {
                let ghost before = names(tags@);
                tags.push(tag);
                assert(names(tags@) =~= before.push(tag_at(s, i as int)));
            }
        }
        i += 1;
    }
    tags
}

} // verus!
