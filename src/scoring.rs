use vstd::prelude::*;

verus! {

/// How one letter of a guess relates to the target word.
#[derive(Clone, Copy, Debug, PartialEq, Eq, Structural)]
pub enum Mark {
    /// The letter stands at this very position of the target.
    Correct,
    /// The letter occurs in the target, at another position.
    Present,
    /// The letter does not occur in the target.
    Absent,
}

/// The mark of position `i` of `guess` against `target`.
pub open spec fn mark_at(guess: Seq<char>, target: Seq<char>, i: int) -> Mark {
    if guess[i] == target[i] {
        Mark::Correct
    } else if target.contains(guess[i]) {
        Mark::Present
    } else {
        Mark::Absent
    }
}

/// Number of positions that are scored: those that both words have.
pub open spec fn scored_len(guess: Seq<char>, target: Seq<char>) -> nat {
    if guess.len() <= target.len() {
        guess.len()
    } else {
        target.len()
    }
}

/// The feedback for `guess` against `target`: each position is marked on its
/// own, with no accounting for repeated letters.
pub open spec fn score(guess: Seq<char>, target: Seq<char>) -> Seq<Mark> {
    Seq::new(scored_len(guess, target), |i: int| mark_at(guess, target, i))
}

/// Whether every mark of a feedback is `Correct`.
pub open spec fn all_correct(feedback: Seq<Mark>) -> bool {
    forall|i: int| 0 <= i < feedback.len() ==> feedback[i] == Mark::Correct
}

/// The letter that stands for a mark in the compact encoding.
pub open spec fn code_of(m: Mark) -> char {
    match m {
        Mark::Correct => 'G',
        Mark::Present => 'Y',
        Mark::Absent => 'X',
    }
}

impl Mark {
    /// `G` for `Correct`, `Y` for `Present`, `X` for `Absent`.
    pub fn code(&self) -> (r: char)
        ensures
            r == code_of(*self),
    {
        match self {
            Mark::Correct => 'G',
            Mark::Present => 'Y',
            Mark::Absent => 'X',
        }
    }
}

/// Whether `c` occurs in `s`.
fn contains_char(s: &str, c: char) -> (r: bool)
    ensures
        r == s@.contains(c),
{
    let n = s.unicode_len();
    let mut i: usize = 0;
    while i < n
        invariant
            n == s@.len(),
            i <= n,
            forall|j: int| 0 <= j < i ==> s@[j] != c,
        decreases n - i,
    {
        if s.get_char(i) == c {
            return true;
        }
        i += 1;
    }
    false
}

/// Scores `guess` against `target`, position by position, left to right.
pub fn score_guess(guess: &str, target: &str) -> (r: Vec<Mark>)
    ensures
        r@ == score(guess@, target@),
{
    let g_len = guess.unicode_len();
    let t_len = target.unicode_len();
    let n = if g_len <= t_len {
        g_len
    } else {
        t_len
    };
    let mut marks: Vec<Mark> = Vec::new();
    let mut i: usize = 0;
    while i < n
        invariant
            g_len == guess@.len(),
            t_len == target@.len(),
            n == scored_len(guess@, target@),
            i <= n,
            marks@ == score(guess@, target@).take(i as int),
        decreases n - i,
    {
        let g = guess.get_char(i);
        let m = if g == target.get_char(i) {
            Mark::Correct
        } else if contains_char(target, g) {
            Mark::Present
        } else {
            Mark::Absent
        };
        marks.push(m);
        i += 1;
        assert(marks@ =~= score(guess@, target@).take(i as int));
    }
    assert(marks@ =~= score(guess@, target@));
    marks
}

/// Writes a feedback in the compact encoding, one letter per mark
/// (`GGXXY` for `Correct, Correct, Absent, Absent, Present`).
pub fn encode_feedback(marks: &[Mark]) -> (r: String)
    ensures
        r@ == marks@.map_values(|m: Mark| code_of(m)),
{
    let mut s = String::new();
    let mut i: usize = 0;
    while i < marks.len()
        invariant
            i <= marks@.len(),
            s@ == marks@.take(i as int).map_values(|m: Mark| code_of(m)),
        decreases marks@.len() - i,
    {
        push_char(&mut s, marks[i].code());
        i += 1;
        assert(s@ =~= marks@.take(i as int).map_values(|m: Mark| code_of(m)));
    }
    assert(marks@.take(marks@.len() as int) =~= marks@);
    s
}

/// Whether every mark is `Correct`: the guess is the target.
pub fn is_all_correct(marks: &[Mark]) -> (r: bool)
    ensures
        r == all_correct(marks@),
{
    let mut i: usize = 0;
    while i < marks.len()
        invariant
            i <= marks@.len(),
            forall|j: int| 0 <= j < i ==> marks@[j] == Mark::Correct,
        decreases marks@.len() - i,
    {
        if marks[i] != Mark::Correct {
            return false;
        }
        i += 1;
    }
    true
}

/// Relies on `String::push`: appends the character at the end.
#[verifier::external_body]
pub(crate) fn push_char(s: &mut String, c: char)
    ensures
        final(s)@ == old(s)@.push(c),
{
    s.push(c)
}

} // verus!
