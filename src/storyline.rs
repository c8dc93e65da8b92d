//! Narrative lines bound to exact scores.

use vstd::prelude::*;

verus! {

/// One narrative line and the score at which it shows.
#[derive(Clone, Debug)]
pub struct StoryLine {
    pub line: String,
    pub appears_at: i32,
}

/// The ordered list of narrative lines of a run.
#[derive(Clone, Debug)]
pub struct StoryLines {
    pub storylines: Vec<StoryLine>,
}

/// `i` is the first record of `lines` bound to `score`.
pub open spec fn is_first_at(lines: Seq<StoryLine>, score: int, i: int) -> bool {
    &&& 0 <= i < lines.len()
    &&& lines[i].appears_at == score
    &&& forall|j: int| 0 <= j < i ==> lines[j].appears_at != score
}

/// Some record of `lines` is bound to `score`.
pub open spec fn has_line_at(lines: Seq<StoryLine>, score: int) -> bool {
    exists|i: int| 0 <= i < lines.len() && lines[i].appears_at == score
}

/// The text shown at `score`: that of the first record bound to it, or
/// nothing.
pub open spec fn shown_text(lines: Seq<StoryLine>, score: int) -> Seq<char> {
    if exists|i: int| is_first_at(lines, score, i) {
        lines[choose|i: int| is_first_at(lines, score, i)].line@
    } else {
        Seq::empty()
    }
}

/// There is at most one first record for a score.
pub proof fn lemma_first_unique(lines: Seq<StoryLine>, score: int, i: int, k: int)
    requires
        is_first_at(lines, score, i),
        is_first_at(lines, score, k),
    ensures
        i == k,
{
}

/// Where a record is bound to a score, a first one is.
pub proof fn lemma_first_exists(lines: Seq<StoryLine>, score: int, i: int)
    requires
        0 <= i < lines.len(),
        lines[i].appears_at == score,
    ensures
        exists|k: int| is_first_at(lines, score, k),
    decreases i,
{
    if exists|j: int| 0 <= j < i && lines[j].appears_at == score {
        let j = choose|j: int| 0 <= j < i && lines[j].appears_at == score;
        lemma_first_exists(lines, score, j);
    } else {
        assert(is_first_at(lines, score, i));
    }
}

/// The index of the first record bound to `score`, if any.
pub fn find_storyline(lines: &StoryLines, score: i32) -> (r: Option<usize>)
    ensures
        r matches Some(i) ==> is_first_at(lines.storylines@, score as int, i as int),
        r is None ==> !has_line_at(lines.storylines@, score as int),
{
    let mut i: usize = 0;
    while i < lines.storylines.len()
        invariant
            0 <= i <= lines.storylines.len(),
            forall|j: int| 0 <= j < i ==> lines.storylines@[j].appears_at != score,
        decreases lines.storylines.len() - i,
    {
        if lines.storylines[i].appears_at == score {
            return Some(i);
        }
        i = i + 1;
    }
    None
}

/// The line bound to `score`, if some record is: that of the first such
/// record.
pub fn storyline_at(lines: &StoryLines, score: i32) -> (r: Option<String>)
    ensures
        r is Some <==> has_line_at(lines.storylines@, score as int),
        r matches Some(t) ==> t@ == shown_text(lines.storylines@, score as int),
        r is None ==> shown_text(lines.storylines@, score as int) == Seq::<char>::empty(),
{
    match find_storyline(lines, score) {
        Some(i) => {
            proof {
                let k = choose|k: int| is_first_at(lines.storylines@, score as int, k);
                lemma_first_unique(lines.storylines@, score as int, i as int, k);
            }
            Some(lines.storylines[i].line.clone())
        },
        None => None,
    }
}

/// The text that the storyline shows at `score`: the line of the first
/// record bound to that score, or the empty string.
pub fn storyline_text(lines: &StoryLines, score: i32) -> (r: String)
    ensures
        r@ == shown_text(lines.storylines@, score as int),
{
    match storyline_at(lines, score) {
        Some(t) => t,
        None => String::new(),
    }
}

/// The storyline shows text exactly when some record is bound to the score
/// (where the first such record's line is not itself empty), and then the
/// line of that first record; otherwise it shows nothing.
pub proof fn lemma_storyline_shown(lines: Seq<StoryLine>, score: int)
    requires
        forall|i: int| is_first_at(lines, score, i) ==> lines[i].line@.len() > 0,
    ensures
        shown_text(lines, score).len() > 0 <==> has_line_at(lines, score),
        forall|i: int| is_first_at(lines, score, i) ==> shown_text(lines, score) == lines[i].line@,
        !has_line_at(lines, score) ==> shown_text(lines, score) == Seq::<char>::empty(),
{
    if has_line_at(lines, score) {
        let i = choose|i: int| 0 <= i < lines.len() && lines[i].appears_at == score;
        lemma_first_exists(lines, score, i);
    }
    assert forall|i: int| is_first_at(lines, score, i) implies shown_text(lines, score)
        == lines[i].line@ by {
        let k = choose|k: int| is_first_at(lines, score, k);
        lemma_first_unique(lines, score, i, k);
    }
}

} // verus!
