use vstd::prelude::*;
use crate::text::characters;

verus! {

/// The two numbers and the character that a password is held against.
#[derive(Clone, Copy, Debug, PartialEq, Eq, Structural)]
pub struct Policy {
    pub from: u64,
    pub to: u64,
    pub letter: char,
}

/// A policy together with the password it is about.
#[derive(Debug)]
pub struct Record {
    pub policy: Policy,
    pub password: String,
}

/// A record as contracts see it: the password is a sequence of characters.
pub struct RecordView {
    pub policy: Policy,
    pub password: Seq<char>,
}

impl View for Record {
    type V = RecordView;

    open spec fn view(&self) -> RecordView {
        RecordView { policy: self.policy, password: self.password@ }
    }
}

/// How many times `letter` occurs in `text`.
pub open spec fn occurrences(text: Seq<char>, letter: char) -> nat {
    text.to_multiset().count(letter)
}

/// Whether the character at `position`, counted from 1, is `letter`. No position outside the
/// text holds any character.
pub open spec fn holds_at(text: Seq<char>, position: int, letter: char) -> bool {
    1 <= position <= text.len() && text[position - 1] == letter
}

impl RecordView {
    /// The letter occurs at least `from` and at most `to` times in the password.
    pub open spec fn count_rule(self) -> bool {
        self.policy.from <= occurrences(self.password, self.policy.letter) <= self.policy.to
    }

    /// Exactly one of the positions `from` and `to` of the password holds the letter.
    pub open spec fn position_rule(self) -> bool {
        holds_at(self.password, self.policy.from as int, self.policy.letter) != holds_at(
            self.password,
            self.policy.to as int,
            self.policy.letter,
        )
    }
}

/// One more character adds one occurrence if it is the letter, and none otherwise.
pub proof fn lemma_occurrences_push(text: Seq<char>, c: char, letter: char)
    ensures
        occurrences(text.push(c), letter) == occurrences(text, letter) + if c == letter {
            1nat
        } else {
            0nat
        },
{
    broadcast use vstd::seq_lib::to_multiset_build;

}

/// No character occurs more often than the text is long.
pub proof fn lemma_occurrences_bounded(text: Seq<char>, letter: char)
    ensures
        occurrences(text, letter) <= text.len(),
    decreases text.len(),
{
    if text.len() == 0 {
        text.to_multiset_ensures();
    } else {
        lemma_occurrences_bounded(text.drop_last(), letter);
        lemma_occurrences_push(text.drop_last(), text.last(), letter);
        assert(text.drop_last().push(text.last()) == text);
    }
}

/// A position outside the text holds no letter: neither one beyond its end nor position 0.
pub proof fn lemma_outside_position_holds_nothing(text: Seq<char>, position: int, letter: char)
    requires
        position < 1 || position > text.len(),
    ensures
        !holds_at(text, position, letter),
{
}

/// Where one of the two positions lies outside the password, the position rule is decided by
/// the other position alone.
pub proof fn lemma_position_rule_with_one_position_outside(record: RecordView)
    ensures
        record.policy.to > record.password.len() || record.policy.to < 1
            ==> record.position_rule() == holds_at(
            record.password,
            record.policy.from as int,
            record.policy.letter,
        ),
        record.policy.from > record.password.len() || record.policy.from < 1
            ==> record.position_rule() == holds_at(
            record.password,
            record.policy.to as int,
            record.policy.letter,
        ),
{
}

/// Whether position `position` of `chars`, counted from 1, holds `letter`.
fn letter_at(chars: &Vec<char>, position: u64, letter: char) -> (held: bool)
    ensures
        held == holds_at(chars@, position as int, letter),
{
    let length = chars.len() as u64;
    1 <= position && position <= length && chars[(position - 1) as usize] == letter
}

/// Counts the characters of `chars` that are `letter`.
fn count_letter(chars: &Vec<char>, letter: char) -> (count: u64)
    ensures
        count == occurrences(chars@, letter),
{
    let mut count: u64 = 0;
    proof {
        lemma_occurrences_bounded(chars@.take(0), letter);
    }
    for i in 0..chars.len()
        invariant
            count == occurrences(chars@.take(i as int), letter),
            count <= i,
    {
        proof {
            lemma_occurrences_push(chars@.take(i as int), chars@[i as int], letter);
            assert(chars@.take(i as int).push(chars@[i as int]) == chars@.take(i + 1));
        }
        if chars[i] == letter {
            count = count + 1;
        }
    }
    proof {
        assert(chars@.take(chars@.len() as int) == chars@);
    }
    count
}

impl Record {
    /// Holds the password against both rules: the count rule first, the position rule second.
    pub fn validate(&self) -> (verdict: (bool, bool))
        ensures
            verdict.0 == self@.count_rule(),
            verdict.1 == self@.position_rule(),
    {
        let letter = self.policy.letter;
        let chars = characters(self.password.as_str());
        let count = count_letter(&chars, letter);
        let by_count = self.policy.from <= count && count <= self.policy.to;
        let by_position = letter_at(&chars, self.policy.from, letter) != letter_at(
            &chars,
            self.policy.to,
            letter,
        );
        (by_count, by_position)
    }
}

} // verus!
