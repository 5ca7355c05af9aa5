use vstd::prelude::*;

verus! {

/// `part` stands in `text` from index `start` on.
pub open spec fn occurs_at(text: Seq<char>, start: int, part: Seq<char>) -> bool {
    0 <= start && start + part.len() <= text.len() && text.subrange(start, start + part.len())
        == part
}

/// The characters of a text, one by one.
pub fn characters(text: &str) -> (chars: Vec<char>)
    ensures
        chars@ == text@,
{
    let mut chars: Vec<char> = Vec::new();
    for c in it: text.chars()
        invariant
            it.seq() == text@,
            chars@ == text@.take(it.index()),
    {
        chars.push(c);
    }
    chars
}

/// Whether `part` stands in `text` from index `start` on.
pub fn stands_at(text: &Vec<char>, start: usize, part: &Vec<char>) -> (found: bool)
    ensures
        found == occurs_at(text@, start as int, part@),
{
    if start > text.len() || text.len() - start < part.len() {
        return false;
    }
    for i in 0..part.len()
        invariant
            start + part.len() <= text.len(),
            text@.subrange(start as int, start + i) == part@.take(i as int),
    {
        if text[start + i] != part[i] {
            return false;
        }
        assert(text@.subrange(start as int, start + i + 1) == text@.subrange(
            start as int,
            start + i,
        ).push(text@[start + i]));
    }
    assert(part@.take(part@.len() as int) == part@);
    true
}

} // verus!
