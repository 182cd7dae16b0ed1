//! The commands of the prompt.

use vstd::prelude::*;
use crate::text::{
    count_leading, count_trailing_spaces, decimal, leading, lemma_decimal_digits,
    lemma_decimal_parses, lemma_leading_is, lemma_trailing_is, parse_index, range_equals,
    second_word, spec_is_space, spec_parse_index, to_chars, trailing_spaces, trim,
};

verus! {

/// What a line typed at the prompt asks for.
#[derive(Debug, Clone, PartialEq, Eq)]
pub enum Command {
    /// Show the commands.
    Help,
    /// List the catalog.
    List,
    /// Play the record with this number of the listing.
    Play(usize),
    /// Download the audio of this BVID.
    Download(String),
    /// Switch the debug mode.
    Debug,
    /// Leave.
    Exit,
    /// Anything else.
    Unknown,
}

/// A `Command` with its string as a character sequence.
pub enum CommandModel {
    Help,
    List,
    Play(usize),
    Download(Seq<char>),
    Debug,
    Exit,
    Unknown,
}

impl View for Command {
    type V = CommandModel;

    open spec fn view(&self) -> CommandModel {
        match self {
            Command::Help => CommandModel::Help,
            Command::List => CommandModel::List,
            Command::Play(index) => CommandModel::Play(*index),
            Command::Download(bvid) => CommandModel::Download(bvid@),
            Command::Debug => CommandModel::Debug,
            Command::Exit => CommandModel::Exit,
            Command::Unknown => CommandModel::Unknown,
        }
    }
}

/// What `show_help` returns.
pub const HELP: &'static str =
    "可用命令：\n  download <BID> - 下载音频\n  debug - 切换调试模式\n  list - 列出所有已下载的音频\n  play <序号> - 播放指定序号的音频\n  exit - 退出程序\n";

/// The list of commands, one to a line.
pub fn show_help() -> (text: &'static str)
    ensures
        text@ == HELP@,
{
    HELP
}

/// Whether `s` begins with `prefix`.
pub open spec fn has_prefix(s: Seq<char>, prefix: Seq<char>) -> bool {
    s.len() >= prefix.len() && s.take(prefix.len() as int) == prefix
}

/// The command that a line asks for. White space at the two ends does not
/// count. `help`, `list`, `exit` and `debug` are commands as they stand;
/// `play` and `download` take the next word after a space, and what follows
/// that word is not looked at. A word after `play` that is no index counts
/// as 0, the number that no record has.
pub open spec fn command_of(line: Seq<char>) -> CommandModel {
    let cmd = trim(line);
    if cmd == "help"@ {
        CommandModel::Help
    } else if cmd == "list"@ {
        CommandModel::List
    } else if cmd == "exit"@ {
        CommandModel::Exit
    } else if cmd == "debug"@ {
        CommandModel::Debug
    } else if has_prefix(cmd, "play "@) {
        CommandModel::Play(
            match spec_parse_index(second_word(cmd)) {
                Some(index) => index,
                None => 0,
            },
        )
    } else if has_prefix(cmd, "download "@) {
        CommandModel::Download(second_word(cmd))
    } else {
        CommandModel::Unknown
    }
}

fn is_word(chars: &Vec<char>, start: usize, end: usize, word: &str) -> (same: bool)
    requires
        start <= end <= chars.len(),
    ensures
        same == (chars@.subrange(start as int, end as int) == word@),
{
    let wanted = to_chars(word);
    range_equals(chars, start, end, &wanted)
}

fn begins_with(chars: &Vec<char>, start: usize, end: usize, prefix: &str) -> (so: bool)
    requires
        start <= end <= chars.len(),
    ensures
        so == has_prefix(chars@.subrange(start as int, end as int), prefix@),
{
    let wanted = to_chars(prefix);
    if end - start < wanted.len() {
        return false;
    }
    assert(chars@.subrange(start as int, end as int).take(wanted.len() as int)
        =~= chars@.subrange(start as int, start + wanted.len()));
    range_equals(chars, start, start + wanted.len(), &wanted)
}

/// Where the second word of the part of `chars` from `start` to `end`
/// begins and ends.
fn second_word_range(chars: &Vec<char>, start: usize, end: usize) -> (r: (usize, usize))
    requires
        start <= end <= chars.len(),
    ensures
        start <= r.0 <= r.1 <= end,
        chars@.subrange(r.0 as int, r.1 as int) == second_word(
            chars@.subrange(start as int, end as int),
        ),
{
    let ghost s = chars@.subrange(start as int, end as int);
    let first = start + count_leading(chars, start, end, true);
    let ghost a = s.skip(leading(s, true) as int);
    assert(a =~= chars@.subrange(first as int, end as int));
    let gap = first + count_leading(chars, first, end, false);
    let ghost b = a.skip(leading(a, false) as int);
    assert(b =~= chars@.subrange(gap as int, end as int));
    let second = gap + count_leading(chars, gap, end, true);
    let ghost c = b.skip(leading(b, true) as int);
    assert(c =~= chars@.subrange(second as int, end as int));
    let stop = second + count_leading(chars, second, end, false);
    assert(c.take(leading(c, false) as int) =~= chars@.subrange(second as int, stop as int));
    (second, stop)
}

/// Reads a line typed at the prompt.
pub fn parse_command(line: &str) -> (cmd: Command)
    ensures
        cmd@ == command_of(line@),
{
    let chars = to_chars(line);
    let n = chars.len();
    let start = count_leading(&chars, 0, n, true);
    let end = n - count_trailing_spaces(&chars, start, n);
    proof {
        assert(chars@.subrange(0, n as int) =~= line@);
        let rest = line@.skip(leading(line@, true) as int);
        assert(rest =~= chars@.subrange(start as int, n as int));
        assert(rest.take(rest.len() - trailing_spaces(rest)) =~= chars@.subrange(
            start as int,
            end as int,
        ));
    }
    if is_word(&chars, start, end, "help") {
        Command::Help
    } else if is_word(&chars, start, end, "list") {
        Command::List
    } else if is_word(&chars, start, end, "exit") {
        Command::Exit
    } else if is_word(&chars, start, end, "debug") {
        Command::Debug
    } else if begins_with(&chars, start, end, "play ") {
        let (from, to) = second_word_range(&chars, start, end);
        match parse_index(&chars, from, to) {
            Some(index) => Command::Play(index),
            None => Command::Play(0),
        }
    } else if begins_with(&chars, start, end, "download ") {
        let (from, to) = second_word_range(&chars, start, end);
        Command::Download(String::from_str(line.substring_char(from, to)))
    } else {
        Command::Unknown
    }
}

/// Whether a text is a word: not empty and without white space.
pub open spec fn is_one_word(s: Seq<char>) -> bool {
    s.len() >= 1 && forall|i: int| 0 <= i < s.len() ==> !spec_is_space(#[trigger] s[i])
}

proof fn lemma_two_words(verb: Seq<char>, word: Seq<char>)
    requires
        is_one_word(verb),
        is_one_word(word),
    ensures
        trim(verb + seq![' '] + word) == verb + seq![' '] + word,
        second_word(verb + seq![' '] + word) == word,
{
    let line = verb + seq![' '] + word;
    assert(!spec_is_space(line[0])) by {
        assert(line[0] == verb[0]);
    }
    assert(!spec_is_space(line.last())) by {
        assert(line.last() == word[word.len() - 1]);
    }
    lemma_leading_is(line, true, 0);
    assert(line.skip(0) =~= line);
    lemma_trailing_is(line, 0);
    assert(line.take(line.len() as int) =~= line);
    assert forall|j: int| 0 <= j < verb.len() implies !spec_is_space(line[j]) by {
        assert(line[j] == verb[j]);
    }
    lemma_leading_is(line, false, verb.len() as int);
    let gap = line.skip(verb.len() as int);
    assert(gap =~= seq![' '] + word);
    assert(!spec_is_space(gap[1])) by {
        assert(gap[1] == word[0]);
    }
    lemma_leading_is(gap, true, 1);
    assert(gap.skip(1) =~= word);
    lemma_leading_is(word, false, word.len() as int);
    assert(word.take(word.len() as int) =~= word);
}

/// `download` and a BVID of one word, with a space between them, is read as
/// the command to download that BVID.
pub proof fn lemma_download_is_read(bvid: Seq<char>)
    requires
        is_one_word(bvid),
    ensures
        command_of("download "@ + bvid) == CommandModel::Download(bvid),
{
    reveal_strlit("download ");
    reveal_strlit("download");
    reveal_strlit("help");
    reveal_strlit("list");
    reveal_strlit("exit");
    reveal_strlit("debug");
    reveal_strlit("play ");
    let verb = "download"@;
    let line = "download "@ + bvid;
    assert(line =~= verb + seq![' '] + bvid);
    lemma_two_words(verb, bvid);
    assert(line.take(9) =~= "download "@);
    assert(line[0] == 'd' && line[1] == 'o');
    assert(line.take(5)[0] == 'd');
}

/// `play` and a number as the listing prints it, with a space between them,
/// is read as the command to play the record of that number.
pub proof fn lemma_play_is_read(n: nat)
    requires
        n <= usize::MAX,
    ensures
        command_of("play "@ + decimal(n)) == CommandModel::Play(n as usize),
{
    reveal_strlit("play ");
    reveal_strlit("play");
    reveal_strlit("help");
    reveal_strlit("list");
    reveal_strlit("exit");
    reveal_strlit("debug");
    let verb = "play"@;
    let digits = decimal(n);
    let line = "play "@ + digits;
    lemma_decimal_digits(n);
    lemma_decimal_parses(n);
    assert(line =~= verb + seq![' '] + digits);
    assert(is_one_word(digits)) by {
        assert forall|i: int| 0 <= i < digits.len() implies !spec_is_space(
            #[trigger] digits[i],
        ) by {
            assert(crate::text::is_digit(digits[i]));
        }
    }
    lemma_two_words(verb, digits);
    assert(line.take(5) =~= "play "@);
    assert(line[0] == 'p');
}

} // verus!
