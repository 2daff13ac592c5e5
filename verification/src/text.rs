use vstd::prelude::*;
use vstd::std_specs::iter::IteratorSpec;

verus! {

/// `String::push` of std: the string afterwards is the string before with `ch` appended.
pub assume_specification[ String::push ](s: &mut String, ch: char)
    ensures
        final(s)@ == old(s)@.push(ch),
;

/// The characters of a string, for access by index.
pub fn to_chars(text: &str) -> (v: Vec<char>)
    ensures
        v@ == text@,
{
    broadcast use vstd::string::group_string_axioms;

    let mut it = text.chars();
    let mut v: Vec<char> = Vec::new();
    loop
        invariant
            v@ + it.remaining() == text@,
            it.decrease() is Some,
        ensures
            v@ == text@,
        decreases it.decrease()->0,
    {
        match it.next() {
            Some(c) => {
                v.push(c);
            },
            None => {
                break ;
            },
        }
    }
    v
}

/// The characters from `from` up to `to`, as a string.
pub(crate) fn string_of(chars: &Vec<char>, from: usize, to: usize) -> (s: String)
    requires
        from <= to <= chars.len(),
    ensures
        s@ == chars@.subrange(from as int, to as int),
{
    let mut s = String::new();
    let mut i: usize = from;
    assert(s@ =~= chars@.subrange(from as int, i as int));
    while i < to
        invariant
            from <= i <= to,
            to <= chars.len(),
            s@ == chars@.subrange(from as int, i as int),
        decreases to - i,
    {
        s.push(chars[i]);
        i += 1;
        assert(s@ =~= chars@.subrange(from as int, i as int));
    }
    s
}

/// The first `n` characters.
pub(crate) fn take(chars: &Vec<char>, n: usize) -> (head: Vec<char>)
    requires
        n <= chars.len(),
    ensures
        head@ == chars@.subrange(0, n as int),
{
    let mut head: Vec<char> = Vec::new();
    let mut i: usize = 0;
    assert(head@ =~= chars@.subrange(0, 0));
    while i < n
        invariant
            i <= n <= chars.len(),
            head@ == chars@.subrange(0, i as int),
        decreases n - i,
    {
        head.push(chars[i]);
        i += 1;
        assert(head@ =~= chars@.subrange(0, i as int));
    }
    head
}

/// Whether `lit` stands in `text` at place `at`.
pub open spec fn occurs_at(text: Seq<char>, lit: Seq<char>, at: int) -> bool {
    &&& 0 <= at
    &&& at + lit.len() <= text.len()
    &&& forall|k: int| 0 <= k < lit.len() ==> text[at + k] == #[trigger] lit[k]
}

/// Whether `lit` stands in `text` at place `at`.
pub fn stands_at(text: &Vec<char>, lit: &Vec<char>, at: usize) -> (b: bool)
    ensures
        b == occurs_at(text@, lit@, at as int),
{
    if lit.len() > text.len() || at > text.len() - lit.len() {
        return false;
    }
    let mut k: usize = 0;
    while k < lit.len()
        invariant
            k <= lit.len(),
            at + lit.len() <= text.len(),
            forall|j: int| 0 <= j < k ==> text[at + j] == #[trigger] lit[j],
        decreases lit.len() - k,
    {
        if text[at + k] != lit[k] {
            return false;
        }
        k += 1;
    }
    true
}

/// Whether `needle` is among `list`.
pub fn contains_name(list: &Vec<String>, needle: &String) -> (found: bool)
    ensures
        found == crate::models::names(list@).contains(needle@),
{
    let ghost all = crate::models::names(list@);
    let mut i: usize = 0;
    while i < list.len()
        invariant
            i <= list.len(),
            all == crate::models::names(list@),
            forall|k: int| 0 <= k < i ==> all[k] != needle@,
        decreases list.len() - i,
    {
        if list[i] == *needle {
            assert(all[i as int] == needle@);
            return true;
        }
        i += 1;
    }
    false
}

} // verus!
