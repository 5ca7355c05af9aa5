use vstd::prelude::*;
use crate::error::Error;
use crate::parser::{line_outcome, Parser};
use crate::policy::RecordView;

verus! {

/// The lines as contracts see them: each a sequence of characters.
pub open spec fn texts(lines: Seq<String>) -> Seq<Seq<char>> {
    lines.map_values(|line: String| line@)
}

/// The line is a record whose password meets the count rule.
pub open spec fn passes_count_rule(line: Seq<char>) -> bool {
    line_outcome(line) matches Ok(record) && record.count_rule()
}

/// The line is a record whose password meets the position rule.
pub open spec fn passes_position_rule(line: Seq<char>) -> bool {
    line_outcome(line) matches Ok(record) && record.position_rule()
}

/// How many of the lines pass the count rule.
pub open spec fn count_rule_total(lines: Seq<Seq<char>>) -> nat {
    lines.filter(|line: Seq<char>| passes_count_rule(line)).len()
}

/// How many of the lines pass the position rule.
pub open spec fn position_rule_total(lines: Seq<Seq<char>>) -> nat {
    lines.filter(|line: Seq<char>| passes_position_rule(line)).len()
}

/// Line `k` is the first that is no record.
pub open spec fn first_malformed(lines: Seq<Seq<char>>, k: int) -> bool {
    &&& 0 <= k < lines.len()
    &&& line_outcome(lines[k]) is Err
    &&& forall|j: int| 0 <= j < k ==> line_outcome(#[trigger] lines[j]) is Ok
}

/// No lines, no totals.
pub proof fn lemma_totals_of_nothing()
    ensures
        count_rule_total(Seq::empty()) == 0,
        position_rule_total(Seq::empty()) == 0,
{
    reveal(Seq::filter);
}

/// One more line adds one to each total whose rule it passes, and nothing else changes.
pub proof fn lemma_totals_push(lines: Seq<Seq<char>>, line: Seq<char>)
    ensures
        count_rule_total(lines.push(line)) == count_rule_total(lines) + if passes_count_rule(line) {
            1nat
        } else {
            0nat
        },
        position_rule_total(lines.push(line)) == position_rule_total(lines) + if passes_position_rule(
            line,
        ) {
            1nat
        } else {
            0nat
        },
{
    reveal(Seq::filter);
    assert(lines.push(line).drop_last() == lines);
}

/// Neither total exceeds the number of lines.
pub proof fn lemma_totals_bounded(lines: Seq<Seq<char>>)
    ensures
        count_rule_total(lines) <= lines.len(),
        position_rule_total(lines) <= lines.len(),
{
    lines.lemma_filter_len(|line: Seq<char>| passes_count_rule(line));
    lines.lemma_filter_len(|line: Seq<char>| passes_position_rule(line));
}

/// Reads one line and holds its password against both rules.
fn verdict_on(parser: &Parser, line: &str) -> (verdict: Result<(bool, bool), Error>)
    ensures
        match verdict {
            Ok(passes) => line_outcome(line@) is Ok && passes.0 == passes_count_rule(line@)
                && passes.1 == passes_position_rule(line@),
            Err(error) => line_outcome(line@) == Err::<RecordView, Seq<char>>(error@),
        },
{
    match parser.parse(line) {
        Ok(record) => Ok(record.validate()),
        Err(error) => Err(error),
    }
}

/// Counts the lines that pass each rule: the count rule first, the position rule second.
///
/// A line that is no record passes neither rule and is otherwise ignored.
pub fn count_valid(parser: &Parser, lines: &Vec<String>) -> (totals: (u64, u64))
    ensures
        totals.0 == count_rule_total(texts(lines@)),
        totals.1 == position_rule_total(texts(lines@)),
{
    let mut by_count: u64 = 0;
    let mut by_position: u64 = 0;
    proof {
        lemma_totals_of_nothing();
    }
    for i in 0..lines.len()
        invariant
            by_count == count_rule_total(texts(lines@).take(i as int)),
            by_position == position_rule_total(texts(lines@).take(i as int)),
    {
        proof {
            let seen = texts(lines@).take(i as int);
            lemma_totals_bounded(seen);
            lemma_totals_push(seen, lines@[i as int]@);
            assert(seen.push(lines@[i as int]@) == texts(lines@).take(i + 1));
        }
        if let Ok((count_rule, position_rule)) = verdict_on(parser, lines[i].as_str()) {
            if count_rule {
                by_count = by_count + 1;
            }
            if position_rule {
                by_position = by_position + 1;
            }
        }
    }
    proof {
        assert(texts(lines@).take(lines@.len() as int) == texts(lines@));
    }
    (by_count, by_position)
}

/// Counts the lines that pass each rule, unless one of them is no record: then the error of the
/// first such line is returned, and nothing is counted.
pub fn count_valid_strict(parser: &Parser, lines: &Vec<String>) -> (totals: Result<
    (u64, u64),
    Error,
>)
    ensures
        match totals {
            Ok(totals) => {
                &&& forall|i: int|
                    0 <= i < lines@.len() ==> line_outcome(#[trigger] texts(lines@)[i]) is Ok
                &&& totals.0 == count_rule_total(texts(lines@))
                &&& totals.1 == position_rule_total(texts(lines@))
            },
            Err(error) => exists|k: int|
                first_malformed(texts(lines@), k) && line_outcome(#[trigger] texts(lines@)[k])
                    == Err::<RecordView, Seq<char>>(error@),
        },
{
    let mut by_count: u64 = 0;
    let mut by_position: u64 = 0;
    proof {
        lemma_totals_of_nothing();
    }
    for i in 0..lines.len()
        invariant
            by_count == count_rule_total(texts(lines@).take(i as int)),
            by_position == position_rule_total(texts(lines@).take(i as int)),
            forall|j: int| 0 <= j < i ==> line_outcome(#[trigger] texts(lines@)[j]) is Ok,
    {
        proof {
            let seen = texts(lines@).take(i as int);
            lemma_totals_bounded(seen);
            lemma_totals_push(seen, lines@[i as int]@);
            assert(seen.push(lines@[i as int]@) == texts(lines@).take(i + 1));
        }
        match verdict_on(parser, lines[i].as_str()) {
            Ok((count_rule, position_rule)) => {
                if count_rule {
                    by_count = by_count + 1;
                }
                if position_rule {
                    by_position = by_position + 1;
                }
            },
            Err(error) => {
                assert(first_malformed(texts(lines@), i as int));
                return Err(error);
            },
        }
    }
    proof {
        assert(texts(lines@).take(lines@.len() as int) == texts(lines@));
    }
    Ok((by_count, by_position))
}

} // verus!
