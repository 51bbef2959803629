//! The guess loop as a state machine: a line is read while prompting, parsed,
//! and a parsed guess is compared against a secret fixed at the start.
use rand::Rng;
use vstd::prelude::*;
use crate::parse::{guess_of_line, read_guess};

verus! {

/// The smallest secret that a game draws.
pub const SECRET_MIN: u8 = 1;

/// The largest secret that a game draws.
pub const SECRET_MAX: u8 = 100;

/// Where the guess loop stands.
#[derive(Clone, Copy, Debug, PartialEq, Eq, Structural)]
pub enum Phase {
    /// Waiting for the next line of input.
    Prompting,
    /// A line was read and is about to be parsed.
    Parsing,
    /// A guess was parsed and is about to be compared with the secret.
    Comparing,
    /// The secret was guessed; nothing follows.
    Won,
}

/// What the loop reports after a transition.
#[derive(Clone, Copy, Debug, PartialEq, Eq, Structural)]
pub enum Reply {
    /// Nothing to report: either a line was ignored or a guess awaits comparison.
    Quiet,
    /// The guess is below the secret.
    TooSmall,
    /// The guess is above the secret.
    TooBig,
    /// The guess is the secret.
    Victory,
}

pub open spec fn valid_secret(s: u8) -> bool {
    SECRET_MIN <= s <= SECRET_MAX
}

/// The three-way comparison of a guess against the secret.
pub open spec fn hint_for(guess: u8, secret: u8) -> Reply {
    if guess < secret {
        Reply::TooSmall
    } else if guess > secret {
        Reply::TooBig
    } else {
        Reply::Victory
    }
}

/// The phase that follows the report of a comparison.
pub open spec fn phase_after(r: Reply) -> Phase {
    if r == Reply::Victory {
        Phase::Won
    } else {
        Phase::Prompting
    }
}

/// What one whole round on a line reports: nothing if the line holds no
/// guess, else the comparison of the guess with the secret.
pub open spec fn reply_to_line(secret: u8, line: Seq<char>) -> Reply {
    match guess_of_line(line) {
        None => Reply::Quiet,
        Some(g) => hint_for(g, secret),
    }
}

/// The abstract state of a game.
pub struct GameView {
    pub secret: u8,
    pub phase: Phase,
    /// The last line read.
    pub line: Seq<char>,
    /// The last guess parsed.
    pub guess: u8,
}

/// One transition of the machine, and what it reports.
pub open spec fn step(v: GameView) -> (GameView, Reply) {
    match v.phase {
        Phase::Parsing => match guess_of_line(v.line) {
            None => (GameView { phase: Phase::Prompting, ..v }, Reply::Quiet),
            Some(g) => (GameView { phase: Phase::Comparing, guess: g, ..v }, Reply::Quiet),
        },
        Phase::Comparing => {
            let r = hint_for(v.guess, v.secret);
            (GameView { phase: phase_after(r), ..v }, r)
        },
        _ => (v, Reply::Quiet),
    }
}

/// The state after `n` transitions.
pub open spec fn steps(v: GameView, n: nat) -> GameView
    decreases n,
{
    if n == 0 {
        v
    } else {
        steps(step(v).0, (n - 1) as nat)
    }
}

/// The replies of whole rounds on the lines in order, up to and including
/// the first victory.
pub open spec fn replies_to_lines(secret: u8, lines: Seq<Seq<char>>) -> Seq<Reply>
    decreases lines.len(),
{
    if lines.len() == 0 {
        Seq::empty()
    } else {
        let r = reply_to_line(secret, lines[0]);
        if r == Reply::Victory {
            seq![r]
        } else {
            seq![r] + replies_to_lines(secret, lines.drop_first())
        }
    }
}

/// The phase reached from `Prompting` after whole rounds on the lines in order.
pub open spec fn phase_after_lines(secret: u8, lines: Seq<Seq<char>>) -> Phase
    decreases lines.len(),
{
    if lines.len() == 0 {
        Phase::Prompting
    } else if reply_to_line(secret, lines[0]) == Reply::Victory {
        Phase::Won
    } else {
        phase_after_lines(secret, lines.drop_first())
    }
}

/// The text of each line.
pub open spec fn lines_view(lines: Seq<String>) -> Seq<Seq<char>> {
    lines.map_values(|l: String| l@)
}

/// Relies on rand's `thread_rng` and `Rng::gen_range`, which draws from the
/// half-open range `low..high` and panics only on an empty one.
#[verifier::external_body]
fn draw_in_range(low: u8, high: u8) -> (r: u8)
    requires
        low < high,
    ensures
        low <= r < high,
{
    rand::thread_rng().gen_range(low..high)
}

/// Compares a guess with the secret.
pub fn compare_guess(guess: u8, secret: u8) -> (r: Reply)
    ensures
        r == hint_for(guess, secret),
{
    if guess < secret {
        Reply::TooSmall
    } else if guess > secret {
        Reply::TooBig
    } else {
        Reply::Victory
    }
}

/// One game: its secret never changes once the game is made.
pub struct GuessLoop {
    secret: u8,
    phase: Phase,
    line: String,
    guess: u8,
}

impl View for GuessLoop {
    type V = GameView;

    closed spec fn view(&self) -> GameView {
        GameView { secret: self.secret, phase: self.phase, line: self.line@, guess: self.guess }
    }
}

impl GuessLoop {
    /// A game on a given secret, waiting for the first line.
    pub fn new(secret: u8) -> (g: Self)
        requires
            valid_secret(secret),
        ensures
            g@.secret == secret,
            g@.phase == Phase::Prompting,
    {
        GuessLoop { secret, phase: Phase::Prompting, line: String::new(), guess: 0 }
    }

    /// A game on a secret drawn uniformly from `SECRET_MIN..=SECRET_MAX`.
    pub fn start() -> (g: Self)
        ensures
            valid_secret(g@.secret),
            g@.phase == Phase::Prompting,
    {
        let s = draw_in_range(SECRET_MIN, SECRET_MAX + 1);
        Self::new(s)
    }

    pub fn secret(&self) -> (r: u8)
        ensures
            r == self@.secret,
    {
        self.secret
    }

    pub fn phase(&self) -> (r: Phase)
        ensures
            r == self@.phase,
    {
        self.phase
    }

    pub fn is_won(&self) -> (r: bool)
        ensures
            r == (self@.phase == Phase::Won),
    {
        self.phase == Phase::Won
    }

    /// Takes the line that was read while prompting.
    pub fn accept_line(&mut self, line: &str)
        requires
            old(self)@.phase == Phase::Prompting,
        ensures
            final(self)@ == (GameView { phase: Phase::Parsing, line: line@, ..old(self)@ }),
    {
        self.line = line.to_string();
        self.phase = Phase::Parsing;
    }

    /// Makes one transition out of `Parsing` or `Comparing`.
    pub fn advance(&mut self) -> (r: Reply)
        requires
            old(self)@.phase == Phase::Parsing || old(self)@.phase == Phase::Comparing,
        ensures
            (final(self)@, r) == step(old(self)@),
    {
        if self.phase == Phase::Parsing {
            match read_guess(self.line.as_str()) {
                None => {
                    self.phase = Phase::Prompting;
                },
                Some(g) => {
                    self.guess = g;
                    self.phase = Phase::Comparing;
                },
            }
            Reply::Quiet
        } else {
            let r = compare_guess(self.guess, self.secret);
            if r == Reply::Victory {
                self.phase = Phase::Won;
            } else {
                self.phase = Phase::Prompting;
            }
            r
        }
    }

    /// One whole round on a line read while prompting: a line that holds no
    /// guess is ignored, a guess is compared, and only the secret wins.
    pub fn submit(&mut self, line: &str) -> (r: Reply)
        requires
            old(self)@.phase == Phase::Prompting,
        ensures
            r == reply_to_line(old(self)@.secret, line@),
            final(self)@.secret == old(self)@.secret,
            final(self)@.phase == phase_after(r),
    {
        self.accept_line(line);
        let r = self.advance();
        if self.phase == Phase::Comparing {
            self.advance()
        } else {
            r
        }
    }

    /// Plays whole rounds on the lines in order, from `Prompting`, and stops
    /// at the first victory; returns what each round reported.
    pub fn play_lines(&mut self, lines: &Vec<String>) -> (replies: Vec<Reply>)
        requires
            old(self)@.phase == Phase::Prompting,
        ensures
            replies@ == replies_to_lines(old(self)@.secret, lines_view(lines@)),
            final(self)@.secret == old(self)@.secret,
            final(self)@.phase == phase_after_lines(old(self)@.secret, lines_view(lines@)),
    {
        let ghost secret = self@.secret;
        let ghost all = lines_view(lines@);
        let mut replies: Vec<Reply> = Vec::new();
        let mut k: usize = 0;
        assert(all.subrange(0, all.len() as int) =~= all);
        assert(replies@ + replies_to_lines(secret, all) =~= replies_to_lines(secret, all));
        while k < lines.len() && self.phase == Phase::Prompting
            invariant
                k <= lines.len(),
                all == lines_view(lines@),
                self@.secret == secret,
                self@.phase == Phase::Prompting || self@.phase == Phase::Won,
                self@.phase == Phase::Prompting ==> replies@ + replies_to_lines(
                    secret,
                    all.subrange(k as int, all.len() as int),
                ) == replies_to_lines(secret, all),
                self@.phase == Phase::Prompting ==> phase_after_lines(
                    secret,
                    all.subrange(k as int, all.len() as int),
                ) == phase_after_lines(secret, all),
                self@.phase == Phase::Won ==> replies@ == replies_to_lines(secret, all),
                self@.phase == Phase::Won ==> phase_after_lines(secret, all) == Phase::Won,
            decreases lines.len() - k,
        {
            let ghost rest = all.subrange(k as int, all.len() as int);
            assert(rest[0] == lines@[k as int]@);
            assert(rest.drop_first() =~= all.subrange(k + 1, all.len() as int));
            let ghost before = replies@;
            let r = self.submit(lines[k].as_str());
            replies.push(r);
            proof {
                if r == Reply::Victory {
                    assert(replies_to_lines(secret, rest) == seq![r]);
                } else {
                    let tail = replies_to_lines(secret, rest.drop_first());
                    assert(replies_to_lines(secret, rest) == seq![r] + tail);
                    assert(before + (seq![r] + tail) =~= replies@ + tail);
                }
            }
            k = k + 1;
        }
        proof {
            if self@.phase == Phase::Prompting {
                assert(all.subrange(k as int, all.len() as int) =~= Seq::<Seq<char>>::empty());
                assert(replies@ + Seq::<Reply>::empty() =~= replies@);
            }
        }
        replies
    }
}

/// A line that holds a guess decides the round: the game is won exactly when
/// the guess is the secret, and otherwise the reply says in which direction
/// the secret lies and the loop goes back to prompting.
pub proof fn lemma_valid_guess_decides(secret: u8, line: Seq<char>)
    requires
        valid_secret(secret),
        guess_of_line(line) is Some,
    ensures
        ({
            let g = guess_of_line(line).unwrap();
            let r = reply_to_line(secret, line);
            &&& (phase_after(r) == Phase::Won) == (g == secret)
            &&& (r == Reply::Victory) == (g == secret)
            &&& g < secret ==> r == Reply::TooSmall && phase_after(r) == Phase::Prompting
            &&& g > secret ==> r == Reply::TooBig && phase_after(r) == Phase::Prompting
        }),
{
}

/// A line that holds no guess never gets past parsing: the machine goes back
/// to prompting, reports nothing, and keeps its secret and last guess.
pub proof fn lemma_bad_line_reprompts(v: GameView)
    requires
        v.phase == Phase::Parsing,
        guess_of_line(v.line) is None,
    ensures
        step(v).0 == (GameView { phase: Phase::Prompting, ..v }),
        step(v).1 == Reply::Quiet,
{
}

/// However many lines without a guess come, the loop keeps prompting and
/// reports nothing for any of them.
pub proof fn lemma_bad_lines_never_advance(secret: u8, lines: Seq<Seq<char>>)
    requires
        forall|i: int| 0 <= i < lines.len() ==> guess_of_line(#[trigger] lines[i]) is None,
    ensures
        phase_after_lines(secret, lines) == Phase::Prompting,
        replies_to_lines(secret, lines) == Seq::new(lines.len(), |i: int| Reply::Quiet),
    decreases lines.len(),
{
    if lines.len() > 0 {
        let rest = lines.drop_first();
        assert forall|i: int| 0 <= i < rest.len() implies guess_of_line(#[trigger] rest[i]) is None by {
            assert(rest[i] == lines[i + 1]);
        }
        lemma_bad_lines_never_advance(secret, rest);
        assert(guess_of_line(lines[0]) is None);
        assert(seq![Reply::Quiet] + Seq::new(rest.len(), |i: int| Reply::Quiet) =~= Seq::new(
            lines.len(),
            |i: int| Reply::Quiet,
        ));
    }
}

/// After any number of lines without a guess, the first line that holds one
/// decides where the loop stands, as if it had come first.
pub proof fn lemma_first_guess_decides(secret: u8, lines: Seq<Seq<char>>)
    requires
        lines.len() > 0,
        forall|i: int| 0 <= i < lines.len() - 1 ==> guess_of_line(#[trigger] lines[i]) is None,
        guess_of_line(lines.last()) is Some,
    ensures
        phase_after_lines(secret, lines) == phase_after(reply_to_line(secret, lines.last())),
    decreases lines.len(),
{
    let rest = lines.drop_first();
    if lines.len() > 1 {
        assert(guess_of_line(lines[0]) is None);
        assert forall|i: int| 0 <= i < rest.len() - 1 implies guess_of_line(#[trigger] rest[i]) is None by {
            assert(rest[i] == lines[i + 1]);
        }
        assert(rest.last() == lines.last());
        lemma_first_guess_decides(secret, rest);
    } else {
        assert(lines.last() == lines[0]);
        assert(rest.len() == 0);
        assert(phase_after_lines(secret, rest) == Phase::Prompting);
    }
}

/// No run of transitions, wrong guesses included, changes the secret.
pub proof fn lemma_steps_keep_secret(v: GameView, n: nat)
    ensures
        steps(v, n).secret == v.secret,
    decreases n,
{
    if n > 0 {
        lemma_steps_keep_secret(step(v).0, (n - 1) as nat);
    }
}

} // verus!
