//! Log entries for the current device: how a line of text becomes a level and
//! a message.

use vstd::prelude::*;

verus! {

/// Where log entries come from.
#[derive(Clone, Debug, PartialEq, Eq)]
pub enum LogOption {
    /// Every line of a file, or of standard input where no file is named.
    Stream { filename: Option<String> },
    /// One entry, given outright.
    Entry { level: String, message: String },
}

/// A log entry as the provisioning API takes it.
#[derive(Clone, Debug, PartialEq, Eq)]
pub struct CreateLogArguments {
    pub level: String,
    pub message: String,
}

/// The levels recognised in a line, in the order they are looked for.
pub open spec fn level_names() -> Seq<Seq<char>> {
    seq![
        seq!['C', 'R', 'I', 'T', 'I', 'C', 'A', 'L'],
        seq!['E', 'R', 'R', 'O', 'R'],
        seq!['W', 'A', 'R', 'N'],
        seq!['I', 'N', 'F', 'O'],
        seq!['D', 'E', 'B', 'U', 'G'],
        seq!['T', 'R', 'A', 'C', 'E'],
    ]
}

/// The level of a line in which none is found.
pub open spec fn default_level() -> Seq<char> {
    seq!['I', 'N', 'F', 'O']
}

/// The code point of `c` with ASCII letters in upper case.
pub open spec fn ascii_upper(c: char) -> u32 {
    if 97 <= (c as u32) <= 122 {
        (c as u32 - 32) as u32
    } else {
        c as u32
    }
}

/// Characters with the Unicode White_Space property.
pub open spec fn is_white_space(c: char) -> bool {
    let u = c as u32;
    ||| 9 <= u <= 13
    ||| u == 32 || u == 0x85 || u == 0xA0 || u == 0x1680
    ||| 0x2000 <= u <= 0x200A
    ||| u == 0x2028 || u == 0x2029 || u == 0x202F || u == 0x205F || u == 0x3000
}

pub open spec fn trim_start(s: Seq<char>) -> Seq<char>
    decreases s.len(),
{
    if s.len() > 0 && is_white_space(s[0]) {
        trim_start(s.drop_first())
    } else {
        s
    }
}

pub open spec fn trim_end(s: Seq<char>) -> Seq<char>
    decreases s.len(),
{
    if s.len() > 0 && is_white_space(s.last()) {
        trim_end(s.drop_last())
    } else {
        s
    }
}

/// `s` without leading and trailing white space.
pub open spec fn trimmed(s: Seq<char>) -> Seq<char> {
    trim_end(trim_start(s))
}

/// `word` stands at position `i` of `line`, ignoring the case of ASCII
/// letters in `line`.
pub open spec fn upper_matches_at(line: Seq<char>, word: Seq<char>, i: int) -> bool {
    &&& 0 <= i
    &&& i + word.len() <= line.len()
    &&& forall|k: int| 0 <= k < word.len() ==> ascii_upper(#[trigger] line[i + k]) == word[k] as u32
}

/// The first position from `i` on at which `word` stands in `line`.
pub open spec fn first_match(line: Seq<char>, word: Seq<char>, i: int) -> Option<int>
    decreases line.len() - i,
{
    if i < 0 || i + word.len() > line.len() {
        None
    } else if upper_matches_at(line, word, i) {
        Some(i)
    } else {
        first_match(line, word, i + 1)
    }
}

/// The level and message of a line, trying the levels from the `k`-th on:
/// the first level found anywhere in the line wins, and the message is what
/// follows its first occurrence, trimmed. A line without a level is an
/// `INFO` message as it stands.
pub open spec fn log_entry_of(line: Seq<char>, k: int) -> (Seq<char>, Seq<char>)
    decreases 6 - k,
{
    if k < 0 || k >= 6 {
        (default_level(), line)
    } else {
        match first_match(line, level_names()[k], 0) {
            Some(i) => (level_names()[k], trimmed(line.subrange(i + level_names()[k].len(), line.len() as int))),
            None => log_entry_of(line, k + 1),
        }
    }
}

proof fn lemma_first_match_matches(line: Seq<char>, word: Seq<char>, i: int)
    ensures
        first_match(line, word, i) matches Some(j) ==> upper_matches_at(line, word, j),
    decreases line.len() - i,
{
    if !(i < 0 || i + word.len() > line.len()) && !upper_matches_at(line, word, i) {
        lemma_first_match_matches(line, word, i + 1);
    }
}

/// Relies on String::push: appends one character.
#[verifier::external_body]
fn push_char(s: &mut String, c: char)
    ensures
        final(s)@ == old(s)@.push(c),
{
    s.push(c)
}

fn chars_of(s: &str) -> (r: Vec<char>)
    ensures
        r@ == s@,
{
    broadcast use vstd::string::axiom_spec_iter;
    let mut out: Vec<char> = Vec::new();
    for c in it: s.chars()
        invariant
            out@ == it.history(),
    {
        out.push(c);
    }
    out
}

fn text_of(cs: &Vec<char>, from: usize, to: usize) -> (r: String)
    requires
        from <= to <= cs@.len(),
    ensures
        r@ == cs@.subrange(from as int, to as int),
{
    let mut s = String::new();
    let mut i = from;
    while i < to
        invariant
            from <= i <= to,
            to <= cs@.len(),
            s@ == cs@.subrange(from as int, i as int),
        decreases to - i,
    {
        push_char(&mut s, cs[i]);
        i += 1;
        assert(s@ =~= cs@.subrange(from as int, i as int));
    }
    s
}

fn white_space(c: char) -> (r: bool)
    ensures
        r == is_white_space(c),
{
    let u = c as u32;
    (9 <= u && u <= 13) || u == 32 || u == 0x85 || u == 0xA0 || u == 0x1680
        || (0x2000 <= u && u <= 0x200A) || u == 0x2028 || u == 0x2029 || u == 0x202F
        || u == 0x205F || u == 0x3000
}

/// The characters `from..to` of `cs` without surrounding white space.
fn trimmed_text(cs: &Vec<char>, from: usize, to: usize) -> (r: String)
    requires
        from <= to <= cs@.len(),
    ensures
        r@ == trimmed(cs@.subrange(from as int, to as int)),
{
    let mut start = from;
    while start < to && white_space(cs[start])
        invariant
            from <= start <= to,
            to <= cs@.len(),
            trim_start(cs@.subrange(from as int, to as int)) == trim_start(cs@.subrange(start as int, to as int)),
        decreases to - start,
    {
        assert(cs@.subrange(start as int, to as int).drop_first() =~= cs@.subrange(start + 1, to as int));
        start += 1;
    }
    assert(trim_start(cs@.subrange(start as int, to as int)) == cs@.subrange(start as int, to as int));
    let mut end = to;
    while end > start && white_space(cs[end - 1])
        invariant
            start <= end <= to,
            to <= cs@.len(),
            trim_end(cs@.subrange(start as int, to as int)) == trim_end(cs@.subrange(start as int, end as int)),
        decreases end - start,
    {
        assert(cs@.subrange(start as int, end as int).drop_last() =~= cs@.subrange(start as int, end - 1));
        end -= 1;
    }
    assert(trim_end(cs@.subrange(start as int, end as int)) == cs@.subrange(start as int, end as int));
    text_of(cs, start, end)
}

fn ascii_upper_code(c: char) -> (r: u32)
    ensures
        r == ascii_upper(c),
{
    let u = c as u32;
    if 97 <= u && u <= 122 {
        u - 32
    } else {
        u
    }
}

/// The first position at which `word` stands in `line`, ignoring the case of
/// ASCII letters in `line`.
fn find_upper(line: &Vec<char>, word: &Vec<char>) -> (r: Option<usize>)
    ensures
        match first_match(line@, word@, 0) {
            Some(i) => r == Some(i as usize),
            None => r.is_none(),
        },
{
    let n = line.len();
    let w = word.len();
    if w > n {
        return None;
    }
    let mut i: usize = 0;
    while i <= n - w
        invariant
            w <= n,
            n == line@.len(),
            w == word@.len(),
            i <= n - w + 1,
            first_match(line@, word@, 0) == first_match(line@, word@, i as int),
        decreases n - w + 1 - i,
    {
        let mut k: usize = 0;
        let mut same = true;
        while k < w
            invariant
                k <= w,
                i + w <= n,
                n == line@.len(),
                w == word@.len(),
                same == forall|j: int| 0 <= j < k ==> ascii_upper(#[trigger] line@[i + j]) == word@[j] as u32,
            decreases w - k,
        {
            if ascii_upper_code(line[i + k]) != word[k] as u32 {
                same = false;
            }
            k += 1;
        }
        if same {
            return Some(i);
        }
        i += 1;
    }
    None
}

fn level_name(k: usize) -> (r: &'static str)
    requires
        k < 6,
    ensures
        r@ == level_names()[k as int],
{
    proof {
        reveal_strlit("CRITICAL");
        reveal_strlit("ERROR");
        reveal_strlit("WARN");
        reveal_strlit("INFO");
        reveal_strlit("DEBUG");
        reveal_strlit("TRACE");
    }
    let r = if k == 0 {
        "CRITICAL"
    } else if k == 1 {
        "ERROR"
    } else if k == 2 {
        "WARN"
    } else if k == 3 {
        "INFO"
    } else if k == 4 {
        "DEBUG"
    } else {
        "TRACE"
    };
    assert(r@ =~= level_names()[k as int]);
    r
}

/// Reads a line of the form `<anything> <LEVEL> <MESSAGE>`. The levels
/// CRITICAL, ERROR, WARN, INFO, DEBUG and TRACE are looked for in that order,
/// in any letter case; the first one found decides, and the message is the
/// rest of the line after it, trimmed. Without a level the whole line is an
/// INFO message.
pub fn parse_log_entry(line: &str) -> (r: CreateLogArguments)
    ensures
        (r.level@, r.message@) == log_entry_of(line@, 0),
{
    let chars = chars_of(line);
    let mut k: usize = 0;
    while k < 6
        invariant
            k <= 6,
            chars@ == line@,
            log_entry_of(line@, 0) == log_entry_of(line@, k as int),
        decreases 6 - k,
    {
        let name = level_name(k);
        let word = chars_of(name);
        match find_upper(&chars, &word) {
            Some(i) => {
                proof {
                    lemma_first_match_matches(line@, word@, 0);
                }
                let message = trimmed_text(&chars, i + word.len(), chars.len());
                return CreateLogArguments { level: name.to_owned(), message };
            },
            None => {},
        }
        k += 1;
    }
    proof {
        reveal_strlit("INFO");
    }
    let level = "INFO".to_owned();
    assert(level@ =~= default_level());
    CreateLogArguments { level, message: line.to_owned() }
}

} // verus!
