//! Reading the address of a private message out of a chat line.
use vstd::prelude::*;

verus! {

/// A line is a private message when it starts with a backslash and `w`.
pub open spec fn is_whisper(s: Seq<char>) -> bool {
    s.len() >= 2 && s[0] == '\\' && s[1] == 'w'
}

/// The index of the first space at or after `from`, or the length of `s`.
pub open spec fn word_end(s: Seq<char>, from: int) -> int
    decreases s.len() - from,
{
    if from >= s.len() {
        s.len() as int
    } else if s[from] == ' ' {
        from
    } else {
        word_end(s, from + 1)
    }
}

/// The second of the pieces that `s` splits into at each space, if there are
/// two or more pieces.
pub open spec fn second_field(s: Seq<char>) -> Option<Seq<char>> {
    let e = word_end(s, 0);
    if e >= s.len() {
        None
    } else {
        Some(s.subrange(e + 1, word_end(s, e + 1)))
    }
}

/// The characters of a text.
fn chars_of(text: &str) -> (v: Vec<char>)
    ensures
        v@ == text@,
{
    let mut v: Vec<char> = Vec::new();
    let n: usize = text.unicode_len();
    let mut i: usize = 0;
    while i < n
        invariant
            n == text@.len(),
            i <= n,
            v@ == text@.take(i as int),
        decreases n - i,
    {
        let c = text.get_char(i);
        v.push(c);
        proof {
            assert(text@.take(i as int).push(c) =~= text@.take(i + 1));
        }
        i = i + 1;
    }
    proof {
        assert(text@.take(n as int) =~= text@);
    }
    v
}

fn word_end_exec(v: &Vec<char>, from: usize) -> (e: usize)
    requires
        from <= v.len(),
    ensures
        e == word_end(v@, from as int),
        from <= e <= v.len(),
{
    let mut i: usize = from;
    while i < v.len() && v[i] != ' '
        invariant
            from <= i <= v.len(),
            word_end(v@, i as int) == word_end(v@, from as int),
        decreases v.len() - i,
    {
        i = i + 1;
    }
    i
}

/// Whether a chat line is a private message.
pub fn is_whisper_text(text: &str) -> (b: bool)
    ensures
        b == is_whisper(text@),
        b <==> text@.len() >= 2 && text@[0] == '\\' && text@[1] == 'w',
{
    let n: usize = text.unicode_len();
    n >= 2 && text.get_char(0) == '\\' && text.get_char(1) == 'w'
}

/// The second space-separated piece of a chat line: for a private message,
/// the text of its addressee.
pub fn second_field_text<'a>(text: &'a str) -> (r: Option<&'a str>)
    ensures
        match r {
            Some(f) => second_field(text@) == Some(f@),
            None => second_field(text@) is None,
        },
{
    let v = chars_of(text);
    let e0 = word_end_exec(&v, 0);
    if e0 >= v.len() {
        None
    } else {
        let e1 = word_end_exec(&v, e0 + 1);
        Some(text.substring_char(e0 + 1, e1))
    }
}

/// A line is private exactly when its first two characters are a
/// backslash and `w`, whatever follows them.
pub proof fn lemma_whisper_is_prefix(s: Seq<char>)
    ensures
        is_whisper(s) <==> s.len() >= 2 && s.take(2) == seq!['\\', 'w'],
{
    if s.len() >= 2 && s.take(2) =~= seq!['\\', 'w'] {
        assert(s[0] == s.take(2)[0] && s[1] == s.take(2)[1]);
    }
    if is_whisper(s) {
        assert(s.take(2) =~= seq!['\\', 'w']);
    }
}

/// A line that does not start with a backslash is never private, and
/// neither is a line shorter than two characters.
pub proof fn lemma_plain_line_is_not_whisper(s: Seq<char>)
    requires
        s.len() < 2 || s[0] != '\\' || s[1] != 'w',
    ensures
        !is_whisper(s),
{
}

/// Whether a line is private depends only on its first two characters:
/// appending text never changes it, once there are two.
pub proof fn lemma_whisper_ignores_rest(s: Seq<char>, t: Seq<char>)
    requires
        s.len() >= 2,
    ensures
        is_whisper(s + t) == is_whisper(s),
{
    assert((s + t)[0] == s[0] && (s + t)[1] == s[1]);
}

/// The index of the first space at or after `from` in a text whose
/// characters from `from` on are no spaces up to `end`, where `end` is the
/// text's end or a space.
proof fn lemma_word_end_at(s: Seq<char>, from: int, end: int)
    requires
        0 <= from <= end <= s.len(),
        forall|i: int| from <= i < end ==> s[i] != ' ',
        end == s.len() || s[end] == ' ',
    ensures
        word_end(s, from) == end,
    decreases end - from,
{
    if from < end {
        lemma_word_end_at(s, from + 1, end);
    }
}

/// In a line made of a first word, a space, a second word and then either
/// nothing or a space and anything, the second piece is the second word.
pub proof fn lemma_second_field_is_second_word(first: Seq<char>, second: Seq<char>, rest: Seq<char>)
    requires
        forall|i: int| 0 <= i < first.len() ==> first[i] != ' ',
        forall|i: int| 0 <= i < second.len() ==> second[i] != ' ',
        rest.len() == 0 || rest[0] == ' ',
    ensures
        second_field(first + seq![' '] + second + rest) == Some(second),
{
    let s = first + seq![' '] + second + rest;
    let e0 = first.len() as int;
    let e1 = e0 + 1 + second.len();
    assert forall|i: int| 0 <= i < e0 implies s[i] != ' ' by {
        assert(s[i] == first[i]);
    }
    assert(s[e0] == ' ');
    lemma_word_end_at(s, 0, e0);
    assert forall|i: int| e0 + 1 <= i < e1 implies s[i] != ' ' by {
        assert(s[i] == second[i - e0 - 1]);
    }
    if rest.len() > 0 {
        assert(s[e1] == rest[0]);
    }
    lemma_word_end_at(s, e0 + 1, e1);
    assert(s.subrange(e0 + 1, e1) =~= second);
}

/// A line with no space has no second piece.
pub proof fn lemma_no_space_no_second_field(s: Seq<char>)
    requires
        forall|i: int| 0 <= i < s.len() ==> s[i] != ' ',
    ensures
        second_field(s) is None,
{
    lemma_word_end_at(s, 0, s.len() as int);
}

} // verus!
