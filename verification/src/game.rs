//! The state of one guessing game and its two operations: starting a new
//! game over a chosen range, and processing one submitted guess.

use crate::decimal::dec_digits;
use crate::decimal::u32_to_string;
use crate::parse::parse_guess;
use crate::parse::parsed_value;
use crate::parse::parses;
use rand::Rng;
use vstd::prelude::*;
use vstd::string::StringExecFns;

verus! {

/// The game state as the contracts see it.
pub struct GameView {
    /// The target value the player is trying to guess.
    pub secret: u32,
    /// The upper bound of the range the secret was drawn from.
    pub max_range: u32,
    /// How many accepted (numeric, in-range) guesses were made this game.
    pub attempts: u32,
    /// Whether the most recent accepted guess equaled the secret.
    pub won: bool,
    /// The raw text of the guess field.
    pub input_text: Seq<char>,
    /// The feedback currently shown to the player.
    pub message: Seq<char>,
}

/// The state of one guessing game.
pub struct GuessApp {
    secret: u32,
    max_range: u32,
    attempts: u32,
    won: bool,
    input_text: String,
    message: String,
}

impl View for GuessApp {
    type V = GameView;

    closed spec fn view(&self) -> GameView {
        GameView {
            secret: self.secret,
            max_range: self.max_range,
            attempts: self.attempts,
            won: self.won,
            input_text: self.input_text@,
            message: self.message@,
        }
    }
}

/// The configured bound, clamped so a game always has at least two candidate
/// values.
pub open spec fn clamp_range(max_range: u32) -> u32 {
    if max_range < 2 {
        2
    } else {
        max_range
    }
}

/// The prompt shown at the start of a game over `1..=max_range`.
pub open spec fn prompt_message(max_range: u32) -> Seq<char> {
    "Guess a number between 1 and "@ + dec_digits(max_range as nat) + "."@
}

/// The feedback for text that does not read as a whole number.
pub open spec fn invalid_message() -> Seq<char> {
    "Please enter a valid whole number."@
}

/// The feedback for a number outside `1..=max_range`.
pub open spec fn out_of_range_message(max_range: u32) -> Seq<char> {
    "Please enter a number between 1 and "@ + dec_digits(max_range as nat) + "."@
}

/// The feedback for a guess above the secret.
pub open spec fn too_high_message() -> Seq<char> {
    "Too high! Try lower."@
}

/// The feedback for a guess below the secret.
pub open spec fn too_low_message() -> Seq<char> {
    "Too low! Try higher."@
}

/// The feedback for the winning guess, reporting how many accepted guesses
/// the game took.
pub open spec fn win_message(attempts: u32) -> Seq<char> {
    "Correct! You guessed it in "@ + dec_digits(attempts as nat) + " tries."@
}

/// What always holds of a game after initialization: the range has at least
/// two values, the secret lies in it, and some feedback is on display.
pub open spec fn game_inv(v: GameView) -> bool {
    &&& 2 <= v.max_range
    &&& 1 <= v.secret <= v.max_range
    &&& v.message.len() > 0
}

/// `pre` with its guess field text replaced by `s`.
pub open spec fn with_input(pre: GameView, s: Seq<char>) -> GameView {
    GameView { input_text: s, ..pre }
}

/// How processing one guess transforms a game that is not yet won (so
/// `pre.won` is false). The raw text is classified as unparsable, parsable
/// but out of range, or an accepted guess; only an accepted guess counts as
/// an attempt, and only an accepted guess equal to the secret wins.
pub open spec fn guess_step(pre: GameView, post: GameView) -> bool {
    let s = pre.input_text;
    &&& post.secret == pre.secret
    &&& post.max_range == pre.max_range
    &&& post.input_text == pre.input_text
    &&& if !parses(s) {
        &&& post.attempts == pre.attempts
        &&& post.won == pre.won
        &&& post.message == invalid_message()
    } else if !(1 <= parsed_value(s) <= pre.max_range) {
        &&& post.attempts == pre.attempts
        &&& post.won == pre.won
        &&& post.message == out_of_range_message(pre.max_range)
    } else {
        &&& post.attempts == pre.attempts + 1
        &&& if parsed_value(s) == pre.secret {
            &&& post.won == true
            &&& post.message == win_message(post.attempts)
        } else if parsed_value(s) > pre.secret {
            &&& post.won == false
            &&& post.message == too_high_message()
        } else {
            &&& post.won == false
            &&& post.message == too_low_message()
        }
    }
}

/// Relies on `rand::Rng::gen_range` over the inclusive range `lo..=hi`:
/// it panics only on an empty range, and otherwise returns a (uniformly
/// drawn) value within the range. Nothing more is assumed of the draw.
#[verifier::external_body]
fn random_in_range(lo: u32, hi: u32) -> (r: u32)
    requires
        lo <= hi,
    ensures
        lo <= r <= hi,
{
    rand::thread_rng().gen_range(lo..=hi)
}

/// Build the prompt for a game over `1..=max_range`.
fn prompt_string(max_range: u32) -> (r: String)
    ensures
        r@ == prompt_message(max_range),
{
    let s = String::from_str("Guess a number between 1 and ");
    let s = s.concat(u32_to_string(max_range).as_str());
    s.concat(".")
}

/// Build the out-of-range feedback for a game over `1..=max_range`.
fn out_of_range_string(max_range: u32) -> (r: String)
    ensures
        r@ == out_of_range_message(max_range),
{
    let s = String::from_str("Please enter a number between 1 and ");
    let s = s.concat(u32_to_string(max_range).as_str());
    s.concat(".")
}

/// Build the winning feedback for a game won after `attempts` guesses.
fn win_string(attempts: u32) -> (r: String)
    ensures
        r@ == win_message(attempts),
{
    let s = String::from_str("Correct! You guessed it in ");
    let s = s.concat(u32_to_string(attempts).as_str());
    s.concat(" tries.")
}

impl GuessApp {
    /// The game's invariant, over its view.
    pub open spec fn inv(self) -> bool {
        game_inv(self@)
    }

    /// A fresh game over the default range of 100.
    pub fn new() -> (g: GuessApp)
        ensures
            g.inv(),
            g@.max_range == 100,
            1 <= g@.secret <= 100,
            g@.attempts == 0,
            !g@.won,
            g@.input_text == Seq::<char>::empty(),
            g@.message == prompt_message(100),
    {
        let mut g = GuessApp {
            secret: 1,
            max_range: 2,
            attempts: 0,
            won: false,
            input_text: String::new(),
            message: String::from_str("Welcome!"),
        };
        g.reset(100);
        g
    }

    /// Start a new game: clamp and store the bound, draw a fresh secret from
    /// `1..=max_range`, clear the guess field, zero the attempt count, and
    /// show the prompt. Always succeeds; the previous secret is discarded.
    pub fn reset(&mut self, max_range: u32)
        ensures
            final(self).inv(),
            final(self)@.max_range == clamp_range(max_range),
            1 <= final(self)@.secret <= final(self)@.max_range,
            final(self)@.attempts == 0,
            !final(self)@.won,
            final(self)@.input_text == Seq::<char>::empty(),
            final(self)@.message == prompt_message(final(self)@.max_range),
    {
        let m = if max_range < 2 {
            2
        } else {
            max_range
        };
        let secret = random_in_range(1, m);
        self.reset_with_secret(max_range, secret);
    }

    /// Start a new game exactly as [`Self::reset`] does, but with a caller
    /// chosen secret, so a deterministic caller (a test, a replay) can pin
    /// the game instead of drawing at random.
    pub fn reset_with_secret(&mut self, max_range: u32, secret: u32)
        requires
            1 <= secret <= clamp_range(max_range),
        ensures
            final(self).inv(),
            final(self)@.max_range == clamp_range(max_range),
            final(self)@.secret == secret,
            final(self)@.attempts == 0,
            !final(self)@.won,
            final(self)@.input_text == Seq::<char>::empty(),
            final(self)@.message == prompt_message(final(self)@.max_range),
    {
        let m = if max_range < 2 {
            2
        } else {
            max_range
        };
        self.max_range = m;
        self.secret = secret;
        self.input_text = String::new();
        self.attempts = 0;
        self.won = false;
        self.message = prompt_string(m);
        proof {
            reveal_strlit("Guess a number between 1 and ");
        }
    }

    /// Replace the raw text of the guess field, as a UI text box does while
    /// the player types. Nothing is parsed and nothing else changes.
    pub fn set_input(&mut self, text: String)
        ensures
            final(self)@ == with_input(old(self)@, text@),
    {
        self.input_text = text;
    }

    /// Process the guess field's current text. A no-op once the game is won;
    /// otherwise the text is classified and answered as [`guess_step`] says.
    /// The attempt count stays below `u32::MAX` so that one more accepted
    /// guess can always be counted.
    pub fn check_guess(&mut self)
        requires
            old(self).inv(),
            old(self)@.attempts < u32::MAX,
        ensures
            final(self).inv(),
            old(self)@.won ==> final(self)@ == old(self)@,
            !old(self)@.won ==> guess_step(old(self)@, final(self)@),
    {
        if self.won {
            return;
        }
        proof {
            reveal_strlit("Please enter a valid whole number.");
            reveal_strlit("Please enter a number between 1 and ");
            reveal_strlit("Too high! Try lower.");
            reveal_strlit("Too low! Try higher.");
            reveal_strlit("Correct! You guessed it in ");
        }
        match parse_guess(self.input_text.as_str()) {
            None => {
                self.message = String::from_str("Please enter a valid whole number.");
            },
            Some(guess) => {
                if guess < 1 || guess > self.max_range {
                    self.message = out_of_range_string(self.max_range);
                } else {
                    self.attempts = self.attempts + 1;
                    if guess == self.secret {
                        self.won = true;
                        self.message = win_string(self.attempts);
                    } else if guess > self.secret {
                        self.message = String::from_str("Too high! Try lower.");
                    } else {
                        self.message = String::from_str("Too low! Try higher.");
                    }
                }
            },
        }
    }

    /// Submit `raw_text` as a guess: store it as the guess field's text and
    /// process it. A no-op once the game is won, leaving even the field text
    /// unchanged, until the next new game.
    pub fn submit_guess(&mut self, raw_text: String)
        requires
            old(self).inv(),
            old(self)@.attempts < u32::MAX,
        ensures
            final(self).inv(),
            old(self)@.won ==> final(self)@ == old(self)@,
            !old(self)@.won ==> guess_step(with_input(old(self)@, raw_text@), final(self)@),
    {
        if self.won {
            return;
        }
        self.input_text = raw_text;
        self.check_guess();
    }

    /// The feedback currently shown to the player.
    pub fn message(&self) -> (r: &String)
        ensures
            r@ == self@.message,
    {
        &self.message
    }

    /// The raw text of the guess field.
    pub fn input_text(&self) -> (r: &String)
        ensures
            r@ == self@.input_text,
    {
        &self.input_text
    }

    /// How many accepted guesses were made this game.
    pub fn attempts(&self) -> (r: u32)
        ensures
            r == self@.attempts,
    {
        self.attempts
    }

    /// Whether the game is won.
    pub fn won(&self) -> (r: bool)
        ensures
            r == self@.won,
    {
        self.won
    }

    /// The target value; a UI reveals it only once the game is won.
    pub fn secret(&self) -> (r: u32)
        ensures
            r == self@.secret,
    {
        self.secret
    }

    /// The configured upper bound of the guessing range.
    pub fn max_range(&self) -> (r: u32)
        ensures
            r == self@.max_range,
    {
        self.max_range
    }
}

impl Default for GuessApp {
    /// A fresh game over the default range, as [`GuessApp::new`] builds it.
    fn default() -> (g: GuessApp)
        ensures
            g.inv(),
            g@.max_range == 100,
            1 <= g@.secret <= 100,
            g@.attempts == 0,
            !g@.won,
            g@.input_text == Seq::<char>::empty(),
            g@.message == prompt_message(100),
    {
        GuessApp::new()
    }
}

} // verus!
