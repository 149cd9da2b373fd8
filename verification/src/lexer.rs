//! The tokenizer: cuts a line into tokens at spaces, keeping quoted text whole.

use vstd::prelude::*;

verus! {

/// Assumed of `String::push` of the standard library, and proved nowhere:
/// the string afterwards is the string before with `c` appended at its end.
pub assume_specification[ std::string::String::push ](s: &mut std::string::String, c: char)
    ensures
        final(s)@ == old(s)@.push(c),
;

/// The state of the scan between two characters.
pub struct Scan {
    /// The tokens that are complete.
    pub tokens: Seq<Seq<char>>,
    /// The characters of the token that is being read.
    pub word: Seq<char>,
    /// Whether the scan stands inside a quoted text.
    pub quoted: bool,
}

/// The state before the first character.
pub open spec fn start() -> Scan {
    Scan { tokens: Seq::empty(), word: Seq::empty(), quoted: false }
}

/// The state after the character `c`.
///
/// A quote opens or closes a quoted text, and the closing one completes the
/// token, empty or not. A space outside quotes completes the token if it has
/// any character. Every other character, and a space inside quotes, joins
/// the token.
pub open spec fn step(s: Scan, c: char) -> Scan {
    if c == '"' {
        if s.quoted {
            Scan { tokens: s.tokens.push(s.word), word: Seq::empty(), quoted: false }
        } else {
            Scan { tokens: s.tokens, word: s.word, quoted: true }
        }
    } else if c == ' ' && !s.quoted {
        if s.word.len() > 0 {
            Scan { tokens: s.tokens.push(s.word), word: Seq::empty(), quoted: false }
        } else {
            s
        }
    } else {
        Scan { tokens: s.tokens, word: s.word.push(c), quoted: s.quoted }
    }
}

/// The state after the first `n` characters of `text`.
pub open spec fn scan(text: Seq<char>, n: nat) -> Scan
    decreases n,
{
    if n == 0 {
        start()
    } else {
        step(scan(text, (n - 1) as nat), text[n - 1])
    }
}

/// The tokens of `text`: those complete at its end, and then the one being
/// read there, if it has any character.
pub open spec fn tokens_of(text: Seq<char>) -> Seq<Seq<char>> {
    let s = scan(text, text.len());
    if s.word.len() > 0 {
        s.tokens.push(s.word)
    } else {
        s.tokens
    }
}

/// The spellings of a sequence of tokens, one for one.
pub open spec fn words(tokens: Seq<String>) -> Seq<Seq<char>> {
    Seq::new(tokens.len(), |i: int| tokens[i]@)
}

/// Cuts `expr` into its tokens.
pub fn tokenize(expr: String) -> (tokens: Vec<String>)
    ensures
        words(tokens@) == tokens_of(expr@),
{
    let mut tokens: Vec<String> = Vec::new();
    let mut word = String::new();
    let mut quoted = false;
    let text = expr.as_str();
    assert(words(tokens@) =~= start().tokens);
    for c in it: text.chars()
        invariant
            it.seq() == text@,
            scan(text@, it.index() as nat) == (Scan { tokens: words(tokens@), word: word@, quoted }),
    {
        let ghost before = words(tokens@);
        if c == '"' {
            if quoted {
                tokens.push(word);
                word = String::new();
                assert(words(tokens@) =~= before.push(scan(text@, it.index() as nat).word));
            }
            quoted = !quoted;
        } else if c == ' ' && !quoted {
            if word.as_str().unicode_len() > 0 {
                tokens.push(word);
                word = String::new();
                assert(words(tokens@) =~= before.push(scan(text@, it.index() as nat).word));
            }
        } else {
            word.push(c);
        }
    }
    if word.as_str().unicode_len() > 0 {
        let ghost before = words(tokens@);
        let ghost last = word@;
        tokens.push(word);
        assert(words(tokens@) =~= before.push(last));
    }
    tokens
}

} // verus!
