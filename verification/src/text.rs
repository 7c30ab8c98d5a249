//! Small verified helpers on strings and lists of strings.

use vstd::prelude::*;

verus! {

/// Whether `list` holds a string equal to `wanted`.
pub fn contains_text(list: &Vec<String>, wanted: &String) -> (found: bool)
    ensures
        found == list.deep_view().contains(wanted@),
{
    let mut i: usize = 0;
    while i < list.len()
        invariant
            i <= list.len(),
            forall|j: int| 0 <= j < i ==> list.deep_view()[j] != wanted@,
        decreases list.len() - i,
    {
        if list[i] == *wanted {
            assert(list.deep_view()[i as int] == wanted@);
            return true;
        }
        i += 1;
    }
    false
}

/// A copy of `list`.
pub fn copy_list(list: &Vec<String>) -> (copy: Vec<String>)
    ensures
        copy.deep_view() == list.deep_view(),
{
    let mut copy: Vec<String> = Vec::new();
    let mut i: usize = 0;
    while i < list.len()
        invariant
            i <= list.len(),
            copy.deep_view() == list.deep_view().take(i as int),
        decreases list.len() - i,
    {
        let ghost before = copy.deep_view();
        copy.push(list[i].clone());
        proof {
            assert(copy.deep_view() =~= before.push(list.deep_view()[i as int]));
        }
        i += 1;
    }
    copy
}

/// The position of the first string of `list` equal to `wanted`, if any.
pub fn position_of(list: &Vec<String>, wanted: &String) -> (at: Option<usize>)
    ensures
        match at {
            Some(i) => i < list.len() && list.deep_view()[i as int] == wanted@
                && !list.deep_view().take(i as int).contains(wanted@),
            None => !list.deep_view().contains(wanted@),
        },
{
    let mut i: usize = 0;
    while i < list.len()
        invariant
            i <= list.len(),
            forall|j: int| 0 <= j < i ==> list.deep_view()[j] != wanted@,
        decreases list.len() - i,
    {
        if list[i] == *wanted {
            return Some(i);
        }
        i += 1;
    }
    None
}

/// A sequence with `x` added holds `y` when the sequence held it or `y` is
/// `x`.
pub proof fn lemma_push_contains<A>(s: Seq<A>, x: A, y: A)
    ensures
        s.push(x).contains(y) <==> s.contains(y) || x == y,
{
    let t = s.push(x);
    if s.contains(y) {
        let k = choose|k: int| 0 <= k < s.len() && s[k] == y;
        assert(t[k] == y);
    }
    if x == y {
        assert(t[s.len() as int] == y);
    }
}

/// The first `i + 1` items hold `y` when the first `i` hold it or the item
/// at `i` is `y`.
pub proof fn lemma_take_contains<A>(s: Seq<A>, i: int, y: A)
    requires
        0 <= i < s.len(),
    ensures
        s.take(i + 1).contains(y) <==> s.take(i).contains(y) || s[i] == y,
{
    assert(s.take(i + 1) =~= s.take(i).push(s[i]));
    lemma_push_contains(s.take(i), s[i], y);
}

/// The position of the last `separator` in `text`, or -1 where there is
/// none.
pub open spec fn last_separator(text: Seq<char>, separator: char) -> int
    decreases text.len(),
{
    if text.len() == 0 {
        -1
    } else if text.last() == separator {
        text.len() - 1
    } else {
        last_separator(text.drop_last(), separator)
    }
}

/// What follows the last `separator` in `text`: the whole text where there
/// is none.
pub open spec fn last_segment(text: Seq<char>, separator: char) -> Seq<char> {
    text.subrange(last_separator(text, separator) + 1, text.len() as int)
}

/// The last segment is the longest tail of the text that holds no
/// separator.
pub proof fn lemma_last_segment(text: Seq<char>, separator: char)
    ensures
        -1 <= last_separator(text, separator) < text.len(),
        last_separator(text, separator) >= 0 ==> text[last_separator(text, separator)]
            == separator,
        !last_segment(text, separator).contains(separator),
        text == text.take(last_separator(text, separator) + 1) + last_segment(text, separator),
    decreases text.len(),
{
    if text.len() > 0 {
        lemma_last_segment(text.drop_last(), separator);
    }
    let tail = last_segment(text, separator);
    assert forall|j: int| 0 <= j < tail.len() implies tail[j] != separator by {
        if text.last() != separator {
            let shorter = last_segment(text.drop_last(), separator);
            if j < shorter.len() {
                assert(shorter[j] == tail[j]);
            }
        }
    }
}

/// What follows the last `separator` in `text`.
pub fn after_last(text: &str, separator: char) -> (tail: String)
    ensures
        tail@ == last_segment(text@, separator),
{
    let total = text.unicode_len();
    let mut start: usize = 0;
    let mut i: usize = 0;
    let chars = text.chars();
    for c in it: chars
        invariant
            it.seq() == text@,
            total == text@.len(),
            i == it.index(),
            i <= total,
            start == last_separator(text@.take(i as int), separator) + 1,
    {
        proof {
            assert(text@.take(i + 1).drop_last() =~= text@.take(i as int));
        }
        i += 1;
        if c == separator {
            start = i;
        }
    }
    proof {
        assert(text@.take(i as int) =~= text@);
        lemma_last_segment(text@, separator);
    }
    text.substring_char(start, total).to_owned()
}

} // verus!
