//! The log viewer's command language: `help` and `show all`, matched
//! case-insensitively on whitespace-separated words.

use vstd::prelude::*;

use crate::markdown::{spec_trim, str_trim};
use crate::strutil::{chars_of, copy_range, is_ws, is_ws_char, string_from_chars};

verus! {

/// A log viewer command.
#[derive(Debug, Clone, PartialEq, Eq)]
pub enum Command {
    /// Print the command list.
    Help,
    /// Print every progress snapshot.
    ShowAll,
    /// Anything else; carries the trimmed input.
    Unknown(String),
    /// A blank line.
    Empty,
}

/// ASCII lowercase of a character code.
pub open spec fn lower_code(u: u32) -> int {
    if 65 <= u && u <= 90 {
        u + 32
    } else {
        u as int
    }
}

/// Case-insensitive (ASCII) word equality.
pub open spec fn word_eq_ci(w: Seq<char>, t: Seq<char>) -> bool {
    w.len() == t.len() && forall|i: int|
        0 <= i < w.len() ==> lower_code(w[i] as u32) == lower_code(t[i] as u32)
}

/// The longest whitespace-free prefix of the input.
pub open spec fn spec_take_word(s: Seq<char>) -> Seq<char>
    decreases s.len(),
{
    if s.len() == 0 || is_ws_char(s[0]) {
        Seq::empty()
    } else {
        seq![s[0]] + spec_take_word(s.drop_first())
    }
}

/// The whitespace-separated words of the input, in order.
pub open spec fn spec_words(s: Seq<char>) -> Seq<Seq<char>>
    decreases s.len(),
{
    if s.len() == 0 {
        Seq::empty()
    } else if is_ws_char(s[0]) {
        spec_words(s.drop_first())
    } else {
        let w = spec_take_word(s);
        if 1 <= w.len() <= s.len() {
            seq![w] + spec_words(s.skip(w.len() as int))
        } else {
            // A non-whitespace head always yields a word, so this branch
            // is never taken; it closes the termination argument.
            Seq::empty()
        }
    }
}

/// The end of the word that starts at `i`.
fn scan_word_end(cs: &Vec<char>, i: usize) -> (k: usize)
    requires
        i <= cs@.len(),
    ensures
        i <= k <= cs@.len(),
        spec_take_word(cs@.skip(i as int)) == cs@.subrange(i as int, k as int),
    decreases cs@.len() - i,
{
    if i < cs.len() && !is_ws(cs[i]) {
        proof {
            assert(cs@.skip(i as int)[0] == cs@[i as int]);
            assert(cs@.skip(i as int).drop_first() =~= cs@.skip(i + 1 as int));
        }
        let k = scan_word_end(cs, i + 1);
        proof {
            assert(seq![cs@[i as int]] + cs@.subrange(i + 1 as int, k as int) =~= cs@.subrange(
                i as int,
                k as int,
            ));
        }
        k
    } else {
        proof {
            if i < cs@.len() {
                assert(cs@.skip(i as int)[0] == cs@[i as int]);
            }
            assert(cs@.subrange(i as int, i as int) =~= Seq::<char>::empty());
        }
        i
    }
}

/// The whitespace-separated words of the input.
fn words_of(s: &str) -> (r: Vec<String>)
    ensures
        r@.map_values(|w: String| w@) == spec_words(s@),
{
    let cs = chars_of(s);
    let n = cs.len();
    let mut r: Vec<String> = Vec::new();
    let mut i: usize = 0;
    proof {
        assert(s@.skip(0) =~= s@);
        assert(r@.map_values(|w: String| w@) =~= Seq::<Seq<char>>::empty());
        assert(r@.map_values(|w: String| w@) + spec_words(s@) =~= spec_words(s@));
    }
    while i < n
        invariant
            cs@ == s@,
            n == s@.len(),
            i <= n,
            spec_words(s@) == r@.map_values(|w: String| w@) + spec_words(s@.skip(i as int)),
        decreases n - i,
    {
        if is_ws(cs[i]) {
            proof {
                assert(s@.skip(i as int)[0] == s@[i as int]);
                assert(s@.skip(i as int).drop_first() =~= s@.skip(i + 1 as int));
            }
            i = i + 1;
        } else {
            let k = scan_word_end(&cs, i);
            proof {
                assert(s@.skip(i as int)[0] == s@[i as int]);
                assert(spec_take_word(s@.skip(i as int)).len() == k - i);
                assert(spec_take_word(s@.skip(i as int)).len() >= 1);
                assert(s@.skip(i as int).skip(k - i) =~= s@.skip(k as int));
            }
            let wv = copy_range(&cs, i, k);
            let w = string_from_chars(&wv);
            let ghost old_map = r@.map_values(|w: String| w@);
            r.push(w);
            proof {
                assert(r@.map_values(|w: String| w@) =~~= old_map.push(
                    s@.subrange(i as int, k as int),
                ));
                assert(old_map + (seq![s@.subrange(i as int, k as int)] + spec_words(
                    s@.skip(k as int),
                )) =~~= old_map.push(s@.subrange(i as int, k as int)) + spec_words(
                    s@.skip(k as int),
                ));
            }
            i = k;
        }
    }
    proof {
        assert(s@.skip(n as int).len() == 0);
        assert(r@.map_values(|w: String| w@) + Seq::<Seq<char>>::empty() =~~= r@.map_values(
            |w: String| w@,
        ));
    }
    r
}

/// Case-insensitive (ASCII) string equality.
fn str_eq_ci(a: &str, b: &str) -> (r: bool)
    ensures
        r == word_eq_ci(a@, b@),
{
    let na = a.unicode_len();
    let nb = b.unicode_len();
    if na != nb {
        return false;
    }
    let mut i: usize = 0;
    while i < na
        invariant
            na == a@.len(),
            na == b@.len(),
            i <= na,
            forall|j: int| 0 <= j < i ==> lower_code(a@[j] as u32) == lower_code(b@[j] as u32),
        decreases na - i,
    {
        let ca = a.get_char(i) as u32;
        let cb = b.get_char(i) as u32;
        let la = if 65 <= ca && ca <= 90 {
            ca + 32
        } else {
            ca
        };
        let lb = if 65 <= cb && cb <= 90 {
            cb + 32
        } else {
            cb
        };
        if la != lb {
            return false;
        }
        i = i + 1;
    }
    true
}

impl Command {
    /// Parse one input line: a blank line is `Empty`, the single word
    /// `help` (case-insensitive) is `Help`, the two words `show all` are
    /// `ShowAll`, and anything else is `Unknown` with the trimmed input.
    pub fn parse(input: &str) -> (r: Command)
        ensures
            ({
                let t = spec_trim(input@);
                let ws = spec_words(input@);
                if t.len() == 0 {
                    r == Command::Empty
                } else if ws.len() == 1 && word_eq_ci(ws[0], "help"@) {
                    r == Command::Help
                } else if ws.len() == 2 && word_eq_ci(ws[0], "show"@) && word_eq_ci(
                    ws[1],
                    "all"@,
                ) {
                    r == Command::ShowAll
                } else {
                    r matches Command::Unknown(u) && u@ == t
                }
            }),
    {
        let trimmed = str_trim(input);
        if trimmed.unicode_len() == 0 {
            return Command::Empty;
        }
        let words = words_of(input);
        proof {
            reveal_strlit("help");
            reveal_strlit("show");
            reveal_strlit("all");
        }
        if words.len() == 1 && str_eq_ci(words[0].as_str(), "help") {
            proof {
                assert(spec_words(input@)[0] == words@[0 as int]@);
            }
            return Command::Help;
        }
        if words.len() == 2 && str_eq_ci(words[0].as_str(), "show") && str_eq_ci(
            words[1].as_str(),
            "all",
        ) {
            proof {
                assert(spec_words(input@)[0] == words@[0 as int]@);
                assert(spec_words(input@)[1] == words@[1 as int]@);
            }
            return Command::ShowAll;
        }
        proof {
            if spec_words(input@).len() == 1 {
                assert(spec_words(input@)[0] == words@[0 as int]@);
            }
            if spec_words(input@).len() == 2 {
                assert(spec_words(input@)[0] == words@[0 as int]@);
                assert(spec_words(input@)[1] == words@[1 as int]@);
            }
        }
        Command::Unknown(trimmed.to_owned())
    }

    /// The command list that `help` prints.
    pub fn help_text() -> (r: &'static str)
        ensures
            r@ == "Commands:\nhelp\nshow all\n"@,
    {
        "Commands:\nhelp\nshow all\n"
    }
}

} // verus!
