//! Quoting for a POSIX shell, and a model of how a shell splits a simple command into words.

use crate::text::chars_of;
use vstd::prelude::*;

verus! {

/// The text that stands for one character inside single quotes. A single quote closes the
/// quotation, stands escaped by a backslash, and opens the quotation again.
pub open spec fn escaped_char(c: char) -> Seq<char> {
    if c == '\'' {
        seq!['\'', '\\', '\'', '\'']
    } else {
        seq![c]
    }
}

/// The text that stands for `s` inside single quotes.
pub open spec fn escaped(s: Seq<char>) -> Seq<char>
    decreases s.len(),
{
    if s.len() == 0 {
        Seq::empty()
    } else {
        escaped(s.drop_last()) + escaped_char(s.last())
    }
}

/// `s` in single quotes.
pub open spec fn quoted(s: Seq<char>) -> Seq<char> {
    seq!['\''] + escaped(s) + seq!['\'']
}

/// Appends `text` in single quotes.
pub(crate) fn push_quoted(out: &mut String, text: &str)
    ensures
        final(out)@ == old(out)@ + quoted(text@),
{
    let chars = chars_of(text);
    out.push('\'');
    let mut i: usize = 0;
    assert(chars@.take(0) == Seq::<char>::empty());
    while i < chars.len()
        invariant
            i <= chars.len(),
            chars@ == text@,
            out@ == old(out)@ + (seq!['\''] + escaped(chars@.take(i as int))),
        decreases chars.len() - i,
    {
        let ghost before = out@;
        if chars[i] == '\'' {
            out.push('\'');
            out.push('\\');
            out.push('\'');
            out.push('\'');
        } else {
            out.push(chars[i]);
        }
        proof {
            assert(chars@.take(i + 1).drop_last() == chars@.take(i as int));
            assert(out@ == before + escaped_char(chars@[i as int]));
        }
        i += 1;
    }
    assert(chars@.take(chars.len() as int) == chars@);
    out.push('\'');
}

/// Where a shell stands inside a command.
pub enum Lexing {
    /// Between two words.
    Between,
    /// In a word, outside quotes.
    Word,
    /// In a word, inside single quotes.
    Quoted,
    /// In a word, behind a backslash.
    Escaped,
    /// At a character that asks for more than splitting into words.
    Other,
}

/// What a shell has read of a command: the words before, and the characters of the current one.
pub struct Reading {
    pub at: Lexing,
    pub words: Seq<Seq<char>>,
    pub word: Seq<char>,
}

/// The characters that stand for themselves outside quotes.
pub open spec fn is_plain(c: char) -> bool {
    ||| 'a' <= c <= 'z'
    ||| 'A' <= c <= 'Z'
    ||| '0' <= c <= '9'
    ||| c == '-'
    ||| c == '_'
    ||| c == '.'
    ||| c == '/'
    ||| c == '='
    ||| c == ','
    ||| c == ':'
    ||| c == '@'
    ||| c == '+'
}

/// The reading after one more character.
pub open spec fn read_char(r: Reading, c: char) -> Reading {
    match r.at {
        Lexing::Between => if c == ' ' {
            r
        } else if c == '\'' {
            Reading { at: Lexing::Quoted, words: r.words, word: Seq::empty() }
        } else if c == '\\' {
            Reading { at: Lexing::Escaped, words: r.words, word: Seq::empty() }
        } else if is_plain(c) {
            Reading { at: Lexing::Word, words: r.words, word: seq![c] }
        } else {
            Reading { at: Lexing::Other, words: r.words, word: r.word }
        },
        Lexing::Word => if c == ' ' {
            Reading { at: Lexing::Between, words: r.words.push(r.word), word: Seq::empty() }
        } else if c == '\'' {
            Reading { at: Lexing::Quoted, words: r.words, word: r.word }
        } else if c == '\\' {
            Reading { at: Lexing::Escaped, words: r.words, word: r.word }
        } else if is_plain(c) {
            Reading { at: Lexing::Word, words: r.words, word: r.word.push(c) }
        } else {
            Reading { at: Lexing::Other, words: r.words, word: r.word }
        },
        Lexing::Quoted => if c == '\'' {
            Reading { at: Lexing::Word, words: r.words, word: r.word }
        } else {
            Reading { at: Lexing::Quoted, words: r.words, word: r.word.push(c) }
        },
        Lexing::Escaped => if c == '\n' {
            Reading { at: Lexing::Other, words: r.words, word: r.word }
        } else {
            Reading { at: Lexing::Word, words: r.words, word: r.word.push(c) }
        },
        Lexing::Other => r,
    }
}

/// The reading after some more text.
pub open spec fn read_text(r: Reading, s: Seq<char>) -> Reading
    decreases s.len(),
{
    if s.len() == 0 {
        r
    } else {
        read_char(read_text(r, s.drop_last()), s.last())
    }
}

/// The reading at the beginning of a command.
pub open spec fn nothing_read() -> Reading {
    Reading { at: Lexing::Between, words: Seq::empty(), word: Seq::empty() }
}

/// The words that a shell makes of a command, where nothing in it but blanks, single quotes and
/// backslashes has a meaning of its own to the shell.
pub open spec fn shell_words(s: Seq<char>) -> Option<Seq<Seq<char>>> {
    let r = read_text(nothing_read(), s);
    match r.at {
        Lexing::Between => Some(r.words),
        Lexing::Word => Some(r.words.push(r.word)),
        _ => None,
    }
}

/// Reading two texts is reading the one and then the other.
pub(crate) proof fn lemma_read_concat(r: Reading, s: Seq<char>, t: Seq<char>)
    ensures
        read_text(r, s + t) == read_text(read_text(r, s), t),
    decreases t.len(),
{
    if t.len() == 0 {
        assert(s + t == s);
    } else {
        lemma_read_concat(r, s, t.drop_last());
        assert((s + t).drop_last() == s + t.drop_last());
    }
}

/// Reading one character.
pub(crate) proof fn lemma_read_one(r: Reading, c: char)
    ensures
        read_text(r, seq![c]) == read_char(r, c),
{
    reveal_with_fuel(read_text, 2);
    assert(seq![c].drop_last() == Seq::<char>::empty());
}

/// Inside single quotes, the escaped text is read as the text itself.
proof fn lemma_read_escaped(r: Reading, s: Seq<char>)
    requires
        r.at is Quoted,
    ensures
        read_text(r, escaped(s)) == (Reading { at: Lexing::Quoted, words: r.words, word: r.word + s }),
    decreases s.len(),
{
    if s.len() == 0 {
        assert(r.word + s == r.word);
    } else {
        let c = s.last();
        let before = Reading { at: Lexing::Quoted, words: r.words, word: r.word + s.drop_last() };
        lemma_read_escaped(r, s.drop_last());
        lemma_read_concat(r, escaped(s.drop_last()), escaped_char(c));
        assert((r.word + s.drop_last()).push(c) == r.word + s);
        if c == '\'' {
            let e = escaped_char(c);
            reveal_with_fuel(read_text, 5);
            assert(e.drop_last() == seq!['\'', '\\', '\'']);
            assert(e.drop_last().drop_last() == seq!['\'', '\\']);
            assert(e.drop_last().drop_last().drop_last() == seq!['\'']);
            assert(e.drop_last().drop_last().drop_last().drop_last() == Seq::<char>::empty());
        } else {
            lemma_read_one(before, c);
        }
    }
}

/// A quoted text is read as the text itself, whatever characters it holds.
pub(crate) proof fn lemma_read_quoted(r: Reading, s: Seq<char>)
    requires
        r.at is Between || r.at is Word,
    ensures
        read_text(r, quoted(s)) == (Reading {
            at: Lexing::Word,
            words: r.words,
            word: if r.at is Word {
                r.word + s
            } else {
                s
            },
        }),
{
    let open = read_char(r, '\'');
    lemma_read_one(r, '\'');
    lemma_read_concat(r, seq!['\''], escaped(s));
    lemma_read_escaped(open, s);
    let inside = read_text(open, escaped(s));
    lemma_read_one(inside, '\'');
    lemma_read_concat(r, seq!['\''] + escaped(s), seq!['\'']);
    assert(Seq::<char>::empty() + s == s);
}

/// A blank behind a word ends it.
pub(crate) proof fn lemma_read_blank(r: Reading)
    ensures
        read_text(r, seq![' ']) == read_char(r, ' '),
{
    lemma_read_one(r, ' ');
}

/// Whether every character of a text stands for itself outside quotes.
pub open spec fn all_plain(s: Seq<char>) -> bool
    decreases s.len(),
{
    s.len() == 0 || (all_plain(s.drop_last()) && is_plain(s.last()))
}

/// A plain text is read as it is.
pub(crate) proof fn lemma_read_plain(r: Reading, s: Seq<char>)
    requires
        r.at is Between || r.at is Word,
        all_plain(s),
        s.len() > 0,
    ensures
        read_text(r, s) == (Reading {
            at: Lexing::Word,
            words: r.words,
            word: if r.at is Word {
                r.word + s
            } else {
                s
            },
        }),
    decreases s.len(),
{
    let c = s.last();
    if s.len() == 1 {
        assert(s == seq![c]);
        lemma_read_one(r, c);
        assert(r.word.push(c) == r.word + s);
    } else {
        lemma_read_plain(r, s.drop_last());
        assert((r.word + s.drop_last()).push(c) == r.word + s);
        assert(s.drop_last().push(c) == s);
    }
}

/// Quoting protects any text: a shell reads a quoted text as the one word that the text is.
pub proof fn law_quoting_keeps_the_text(s: Seq<char>)
    ensures
        shell_words(quoted(s)) == Some(seq![s]),
{
    lemma_read_quoted(nothing_read(), s);
    assert(Seq::<Seq<char>>::empty().push(s) == seq![s]);
}

} // verus!
