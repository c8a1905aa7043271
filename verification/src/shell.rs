//! Remote commands: every argument is quoted so that a POSIX shell reads it
//! back as one word, whatever characters it holds.

use vstd::prelude::*;

use crate::text;

verus! {

/// What stands between the quotes: each single quote closes the quotation,
/// gives an escaped quote and opens it again.
pub open spec fn quote_body(s: Seq<char>) -> Seq<char>
    decreases s.len(),
{
    if s.len() == 0 {
        Seq::empty()
    } else if s.last() == '\'' {
        quote_body(s.drop_last()) + seq!['\'', '\\', '\'', '\'']
    } else {
        quote_body(s.drop_last()).push(s.last())
    }
}

/// A word in single quotes.
pub open spec fn shell_quoted(s: Seq<char>) -> Seq<char> {
    seq!['\''] + quote_body(s) + seq!['\'']
}

/// A program and its quoted arguments, with one space before each argument.
pub open spec fn remote_command(program: Seq<char>, args: Seq<Seq<char>>) -> Seq<char>
    decreases args.len(),
{
    if args.len() == 0 {
        program
    } else {
        remote_command(program, args.drop_last()).push(' ') + shell_quoted(args.last())
    }
}

/// How a shell reads the next character.
#[derive(Debug)]
pub enum Quoting {
    Plain,
    Quoted,
    Escaped,
}

/// Where a shell stands while it splits a line into words: the finished words,
/// and the word it is reading, if one has begun.
pub struct Reading {
    pub words: Seq<Seq<char>>,
    pub word: Option<Seq<char>>,
    pub quoting: Quoting,
}

/// The characters of the word read so far.
pub open spec fn word_so_far(r: Reading) -> Seq<char> {
    match r.word {
        Some(w) => w,
        None => Seq::empty(),
    }
}

/// One character of a POSIX shell's word splitting: single quotes keep all but
/// the closing quote, a backslash keeps the next character, a space ends a word.
pub open spec fn read_char(r: Reading, c: char) -> Reading {
    match r.quoting {
        Quoting::Escaped => Reading {
            words: r.words,
            word: Some(word_so_far(r).push(c)),
            quoting: Quoting::Plain,
        },
        Quoting::Quoted => if c == '\'' {
            Reading { words: r.words, word: r.word, quoting: Quoting::Plain }
        } else {
            Reading {
                words: r.words,
                word: Some(word_so_far(r).push(c)),
                quoting: Quoting::Quoted,
            }
        },
        Quoting::Plain => if c == '\'' {
            Reading { words: r.words, word: Some(word_so_far(r)), quoting: Quoting::Quoted }
        } else if c == '\\' {
            Reading { words: r.words, word: Some(word_so_far(r)), quoting: Quoting::Escaped }
        } else if c == ' ' {
            Reading {
                words: match r.word {
                    Some(w) => r.words.push(w),
                    None => r.words,
                },
                word: None,
                quoting: Quoting::Plain,
            }
        } else {
            Reading {
                words: r.words,
                word: Some(word_so_far(r).push(c)),
                quoting: Quoting::Plain,
            }
        },
    }
}

/// Reading on through a piece of a line.
pub open spec fn read_on(r: Reading, line: Seq<char>) -> Reading
    decreases line.len(),
{
    if line.len() == 0 {
        r
    } else {
        read_char(read_on(r, line.drop_last()), line.last())
    }
}

/// The words that a shell reads in a line.
pub open spec fn shell_words(line: Seq<char>) -> Seq<Seq<char>> {
    let end = read_on(
        Reading { words: Seq::empty(), word: None, quoting: Quoting::Plain },
        line,
    );
    match end.word {
        Some(w) => end.words.push(w),
        None => end.words,
    }
}

/// A program name that needs no quotes.
pub open spec fn plain_word(s: Seq<char>) -> bool {
    &&& s.len() > 0
    &&& forall|i: int| 0 <= i < s.len() ==> s[i] != '\'' && s[i] != '\\' && s[i] != ' '
}

proof fn lemma_read_concat(r: Reading, a: Seq<char>, b: Seq<char>)
    ensures
        read_on(r, a + b) == read_on(read_on(r, a), b),
    decreases b.len(),
{
    if b.len() == 0 {
        assert(a + b =~= a);
    } else {
        assert((a + b).drop_last() =~= a + b.drop_last());
        assert((a + b).last() == b.last());
        lemma_read_concat(r, a, b.drop_last());
    }
}

proof fn lemma_read_body(r: Reading, s: Seq<char>)
    requires
        r.quoting is Quoted,
        r.word is Some,
    ensures
        read_on(r, quote_body(s)) == (Reading {
            words: r.words,
            word: Some(r.word->0 + s),
            quoting: Quoting::Quoted,
        }),
    decreases s.len(),
{
    if s.len() == 0 {
        assert(r.word->0 + s =~= r.word->0);
    } else {
        lemma_read_body(r, s.drop_last());
        let before = read_on(r, quote_body(s.drop_last()));
        assert(r.word->0 + s =~= (r.word->0 + s.drop_last()).push(s.last()));
        if s.last() == '\'' {
            let q = seq!['\'', '\\', '\'', '\''];
            lemma_read_concat(r, quote_body(s.drop_last()), q);
            assert(q.drop_last() =~= seq!['\'', '\\', '\'']);
            assert(q.drop_last().drop_last() =~= seq!['\'', '\\']);
            assert(q.drop_last().drop_last().drop_last() =~= seq!['\'']);
            assert(q.drop_last().drop_last().drop_last().drop_last() =~= Seq::<char>::empty());
            reveal_with_fuel(read_on, 5);
        } else {
            assert(quote_body(s).drop_last() =~= quote_body(s.drop_last()));
        }
    }
}

proof fn lemma_read_quoted(r: Reading, s: Seq<char>)
    requires
        r.quoting is Plain,
        r.word is None,
    ensures
        read_on(r, shell_quoted(s)) == (Reading {
            words: r.words,
            word: Some(s),
            quoting: Quoting::Plain,
        }),
{
    let open = seq!['\''];
    let after_open = read_on(r, open);
    reveal_with_fuel(read_on, 2);
    assert(open.drop_last() =~= Seq::<char>::empty());
    lemma_read_concat(r, open, quote_body(s));
    lemma_read_body(after_open, s);
    assert(Seq::<char>::empty() + s =~= s);
    lemma_read_concat(r, open + quote_body(s), open);
}

proof fn lemma_read_plain(r: Reading, s: Seq<char>)
    requires
        r.quoting is Plain,
        r.word is None,
        plain_word(s),
    ensures
        read_on(r, s) == (Reading { words: r.words, word: Some(s), quoting: Quoting::Plain }),
    decreases s.len(),
{
    if s.len() == 1 {
        assert(s.drop_last() =~= Seq::<char>::empty());
        reveal_with_fuel(read_on, 2);
        assert(s =~= Seq::<char>::empty().push(s.last()));
    } else {
        lemma_read_plain(r, s.drop_last());
        assert(s =~= s.drop_last().push(s.last()));
    }
}

proof fn lemma_read_command(program: Seq<char>, args: Seq<Seq<char>>)
    requires
        plain_word(program),
    ensures
        ({
            let start = Reading { words: Seq::empty(), word: None, quoting: Quoting::Plain };
            let all = seq![program] + args;
            read_on(start, remote_command(program, args)) == (Reading {
                words: all.drop_last(),
                word: Some(all.last()),
                quoting: Quoting::Plain,
            })
        }),
    decreases args.len(),
{
    let start = Reading { words: Seq::empty(), word: None, quoting: Quoting::Plain };
    let all = seq![program] + args;
    if args.len() == 0 {
        lemma_read_plain(start, program);
        assert(all.drop_last() =~= Seq::<Seq<char>>::empty());
    } else {
        let shorter = seq![program] + args.drop_last();
        lemma_read_command(program, args.drop_last());
        assert(all.drop_last() =~= shorter);
        let line = remote_command(program, args.drop_last());
        assert(line.push(' ').drop_last() =~= line);
        assert(shorter.drop_last().push(shorter.last()) =~= shorter);
        lemma_read_quoted(read_on(start, line.push(' ')), args.last());
        lemma_read_concat(start, line.push(' '), shell_quoted(args.last()));
    }
}

/// A shell reads a remote command back as the program followed by exactly the
/// given arguments: no argument is split, joined or interpreted.
pub proof fn remote_command_keeps_arguments(program: Seq<char>, args: Seq<Seq<char>>)
    requires
        plain_word(program),
    ensures
        shell_words(remote_command(program, args)) == seq![program] + args,
{
    lemma_read_command(program, args);
    let all = seq![program] + args;
    assert(all.drop_last().push(all.last()) =~= all);
}

/// Quotes one word for a POSIX shell.
pub fn shell_escape(word: &str) -> (quoted: String)
    ensures
        quoted@ == shell_quoted(word@),
{
    let mut quoted = String::new();
    quoted.push('\'');
    assert(quoted@ =~= seq!['\''] + quote_body(word@.take(0)));
    let length: usize = word.unicode_len();
    let mut i: usize = 0;
    while i < length
        invariant
            i <= length,
            length == word@.len(),
            quoted@ == seq!['\''] + quote_body(word@.take(i as int)),
        decreases length - i,
    {
        let c = word.get_char(i);
        proof {
            assert(word@.take(i + 1).drop_last() =~= word@.take(i as int));
            assert(word@.take(i + 1).last() == c);
        }
        if c == '\'' {
            quoted.push('\'');
            quoted.push('\\');
            quoted.push('\'');
            quoted.push('\'');
        } else {
            quoted.push(c);
        }
        i = i + 1;
        assert(quoted@ =~= seq!['\''] + quote_body(word@.take(i as int)));
    }
    assert(word@.take(length as int) =~= word@);
    quoted.push('\'');
    assert(quoted@ =~= shell_quoted(word@));
    quoted
}

/// Builds a remote command line from a program and its arguments. Each argument
/// is quoted by itself, so that spaces and special characters in paths stay
/// inside their argument.
pub fn build_remote_command(program: &str, args: &[String]) -> (command: String)
    ensures
        command@ == remote_command(program@, text::texts(args@)),
{
    let mut command = program.to_owned();
    let mut i: usize = 0;
    assert(text::texts(args@).take(0) =~= Seq::<Seq<char>>::empty());
    while i < args.len()
        invariant
            i <= args.len(),
            command@ == remote_command(program@, text::texts(args@).take(i as int)),
        decreases args.len() - i,
    {
        command.push(' ');
        command.append(shell_escape(args[i].as_str()).as_str());
        proof {
            let longer = text::texts(args@).take(i + 1);
            assert(longer.drop_last() =~= text::texts(args@).take(i as int));
            assert(longer.last() == args@[i as int]@);
        }
        i = i + 1;
    }
    assert(text::texts(args@).take(i as int) =~= text::texts(args@));
    command
}

proof fn lemma_quote_body_concat(a: Seq<char>, b: Seq<char>)
    ensures
        quote_body(a + b) == quote_body(a) + quote_body(b),
    decreases b.len(),
{
    if b.len() == 0 {
        assert(a + b =~= a);
        assert(quote_body(a) + quote_body(b) =~= quote_body(a));
    } else {
        assert((a + b).drop_last() =~= a + b.drop_last());
        lemma_quote_body_concat(a, b.drop_last());
        assert(quote_body(a + b) =~= quote_body(a) + quote_body(b));
    }
}

proof fn lemma_quote_body_plain(s: Seq<char>)
    requires
        !s.contains('\''),
    ensures
        quote_body(s) == s,
    decreases s.len(),
{
    if s.len() > 0 {
        assert(s.contains(s.last()));
        assert forall|c: char| s.drop_last().contains(c) implies s.contains(c) by {
            let i = choose|i: int| 0 <= i < s.drop_last().len() && s.drop_last()[i] == c;
            assert(s[i] == c);
        }
        lemma_quote_body_plain(s.drop_last());
        assert(s.drop_last().push(s.last()) =~= s);
    }
}

/// Every word is put in single quotes and kept between them as it is, but for a single
/// quote: this ends the quotation, stands behind a backslash and begins a new one.
pub proof fn words_are_kept_in_single_quotes(before: Seq<char>, behind: Seq<char>)
    requires
        !before.contains('\''),
    ensures
        shell_quoted(before) == seq!['\''] + before + seq!['\''],
        shell_quoted(before + seq!['\''] + behind) == seq!['\''] + before + seq!['\'', '\\', '\'']
            + shell_quoted(behind),
{
    lemma_quote_body_plain(before);
    let quote = seq!['\''];
    lemma_quote_body_concat(before, quote);
    lemma_quote_body_concat(before + quote, behind);
    assert(quote.drop_last() =~= Seq::<char>::empty());
    assert(quote_body(quote) =~= seq!['\'', '\\', '\'', '\'']) by {
        reveal_with_fuel(quote_body, 2);
    }
    assert(shell_quoted(before + quote + behind) =~= seq!['\''] + before + seq!['\'', '\\', '\'']
        + shell_quoted(behind));
}

/// A command line is the program, followed by each argument in quotes behind one space.
pub proof fn commands_grow_argument_by_argument(
    program: Seq<char>,
    args: Seq<Seq<char>>,
    more: Seq<Seq<char>>,
    arg: Seq<char>,
)
    ensures
        remote_command(program, Seq::empty()) == program,
        remote_command(program, seq![arg]) == program + seq![' '] + shell_quoted(arg),
        remote_command(program, args + more) == remote_command(remote_command(program, args), more),
    decreases more.len(),
{
    assert(seq![arg].drop_last() =~= Seq::<Seq<char>>::empty());
    assert(remote_command(program, seq![arg]) =~= program + seq![' '] + shell_quoted(arg)) by {
        reveal_with_fuel(remote_command, 2);
    }
    if more.len() == 0 {
        assert(args + more =~= args);
    } else {
        assert((args + more).drop_last() =~= args + more.drop_last());
        commands_grow_argument_by_argument(program, args, more.drop_last(), arg);
    }
}

} // verus!
