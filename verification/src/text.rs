//! Text: the parts of `String` that the library calls, decimal numbers and
//! searching.
use vstd::prelude::*;

verus! {

/// `String::push`: the character is added at the end.
pub assume_specification[ String::push ](s: &mut String, c: char)
    ensures
        final(s)@ == old(s)@.push(c),
;

/// `String::pop`: the last character is taken away and handed back; an empty
/// string stays as it is.
pub assume_specification[ String::pop ](s: &mut String) -> (c: Option<char>)
    ensures
        old(s)@.len() == 0 ==> c is None && final(s)@ == old(s)@,
        old(s)@.len() > 0 ==> c == Some(old(s)@.last()) && final(s)@ == old(s)@.drop_last(),
;

/// Strings as plain values.
pub open spec fn texts(strings: Seq<String>) -> Seq<Seq<char>> {
    Seq::new(strings.len(), |i: int| strings[i]@)
}

/// The digit that stands for a number under ten.
pub open spec fn digit(n: nat) -> char {
    if n == 0 {
        '0'
    } else if n == 1 {
        '1'
    } else if n == 2 {
        '2'
    } else if n == 3 {
        '3'
    } else if n == 4 {
        '4'
    } else if n == 5 {
        '5'
    } else if n == 6 {
        '6'
    } else if n == 7 {
        '7'
    } else if n == 8 {
        '8'
    } else {
        '9'
    }
}

/// A number in decimal digits, without leading zeroes.
pub open spec fn decimal(n: nat) -> Seq<char>
    decreases n,
{
    if n < 10 {
        seq![digit(n)]
    } else {
        decimal(n / 10).push(digit(n % 10))
    }
}

/// The digit that stands for a number under ten.
fn digit_char(n: u64) -> (c: char)
    requires
        n < 10,
    ensures
        c == digit(n as nat),
{
    match n {
        0 => '0',
        1 => '1',
        2 => '2',
        3 => '3',
        4 => '4',
        5 => '5',
        6 => '6',
        7 => '7',
        8 => '8',
        _ => '9',
    }
}

/// Adds a number in decimal digits to the end of `text`.
pub fn push_decimal(text: &mut String, n: u64)
    ensures
        final(text)@ == old(text)@ + decimal(n as nat),
    decreases n,
{
    if n >= 10 {
        push_decimal(text, n / 10);
    }
    text.push(digit_char(n % 10));
    assert(text@ =~= old(text)@ + decimal(n as nat));
}

/// Whether `part` occurs in `whole`.
pub open spec fn contains(whole: Seq<char>, part: Seq<char>) -> bool {
    exists|i: int|
        0 <= i <= whole.len() - part.len() && #[trigger] whole.subrange(i, i + part.len()) == part
}

/// The characters of `text`, one by one.
pub fn characters(text: &str) -> (chars: Vec<char>)
    ensures
        chars@ == text@,
{
    let mut out: Vec<char> = Vec::new();
    for c in chars: text.chars()
        invariant
            chars.seq() == text@,
            out@ == text@.take(chars.index()),
    {
        assert(text@.take(chars.index() + 1) =~= text@.take(chars.index()).push(c));
        out.push(c);
    }
    assert(text@.take(text@.len() as int) =~= text@);
    out
}

/// Whether `part` stands in `whole` at `at`.
fn stands_at(whole: &Vec<char>, part: &Vec<char>, at: usize) -> (stands: bool)
    requires
        at + part@.len() <= whole@.len(),
    ensures
        stands == (whole@.subrange(at as int, at + part@.len()) == part@),
{
    let mut i: usize = 0;
    while i < part.len()
        invariant
            i <= part@.len(),
            at + part@.len() <= whole.len(),
            forall|j: int| 0 <= j < i ==> whole@[at + j] == part@[j],
        decreases part@.len() - i,
    {
        if whole[at + i] != part[i] {
            assert(whole@.subrange(at as int, at + part@.len())[i as int] != part@[i as int]);
            return false;
        }
        i += 1;
    }
    assert(whole@.subrange(at as int, at + part@.len()) =~= part@);
    true
}

/// Whether `part` occurs in `whole`.
pub fn text_contains(whole: &str, part: &str) -> (found: bool)
    ensures
        found == contains(whole@, part@),
{
    let whole_chars: Vec<char> = characters(whole);
    let part_chars: Vec<char> = characters(part);
    if part_chars.len() > whole_chars.len() {
        return false;
    }
    let last: usize = whole_chars.len() - part_chars.len();
    let mut at: usize = 0;
    while at <= last
        invariant
            at <= last + 1,
            last == whole@.len() - part@.len(),
            last <= whole_chars.len(),
            whole_chars@ == whole@,
            part_chars@ == part@,
            forall|i: int|
                0 <= i < at ==> #[trigger] whole@.subrange(i, i + part@.len()) != part@,
        decreases last + 1 - at,
    {
        if stands_at(&whole_chars, &part_chars, at) {
            return true;
        }
        if at == last {
            return false;
        }
        at += 1;
    }
    false
}

/// A copy of `text`.
pub fn copied(text: &String) -> (copy: String)
    ensures
        copy@ == text@,
{
    text.as_str().to_owned()
}

/// Whether `part` stands in `whole` at `at`.
pub open spec fn stands(whole: Seq<char>, part: Seq<char>, at: int) -> bool {
    0 <= at <= whole.len() - part.len() && whole.subrange(at, at + part.len()) == part
}

/// Where `part` first stands in `whole`, from `from` on.
pub open spec fn first_from(whole: Seq<char>, part: Seq<char>, from: int) -> Option<int>
    decreases whole.len() + 1 - from,
{
    if from < 0 || from + part.len() > whole.len() {
        None
    } else if stands(whole, part, from) {
        Some(from)
    } else {
        first_from(whole, part, from + 1)
    }
}

/// What lies before, between and after each `separator` in `text`.
pub open spec fn split_at_each(text: Seq<char>, separator: Seq<char>) -> Seq<Seq<char>>
    decreases text.len(),
{
    match first_from(text, separator, 0) {
        Some(at) => if separator.len() > 0 && 0 <= at && at + separator.len() <= text.len() {
            seq![text.take(at)] + split_at_each(text.skip(at + separator.len()), separator)
        } else {
            seq![text]
        },
        None => seq![text],
    }
}

/// A place that `first_from` finds lies in the text.
pub proof fn lemma_first_from(whole: Seq<char>, part: Seq<char>, from: int)
    requires
        0 <= from,
    ensures
        first_from(whole, part, from) matches Some(at) ==> from <= at && at + part.len()
            <= whole.len(),
    decreases whole.len() + 1 - from,
{
    if from + part.len() <= whole.len() && !stands(whole, part, from) {
        lemma_first_from(whole, part, from + 1);
    }
}

/// Where `part` first stands in `whole`.
fn find_first(whole: &Vec<char>, part: &Vec<char>) -> (found: Option<usize>)
    ensures
        (match found {
            Some(at) => Some(at as int),
            None => None,
        }) == first_from(whole@, part@, 0),
{
    if part.len() > whole.len() {
        return None;
    }
    let last: usize = whole.len() - part.len();
    let mut at: usize = 0;
    while at <= last
        invariant
            at <= last,
            last == whole@.len() - part@.len(),
            last <= whole.len(),
            first_from(whole@, part@, 0) == first_from(whole@, part@, at as int),
        decreases last + 1 - at,
    {
        if stands_at(whole, part, at) {
            return Some(at);
        }
        assert(first_from(whole@, part@, at as int) == first_from(whole@, part@, at + 1));
        if at == last {
            assert(first_from(whole@, part@, at + 1) is None);
            return None;
        }
        at += 1;
    }
    None
}

/// The text that `chars` make up, from one place to another.
fn text_of(chars: &Vec<char>, from: usize, to: usize) -> (text: String)
    requires
        from <= to <= chars@.len(),
    ensures
        text@ == chars@.subrange(from as int, to as int),
{
    let mut text: String = String::new();
    let mut i: usize = from;
    assert(text@ =~= chars@.subrange(from as int, from as int));
    while i < to
        invariant
            from <= i <= to <= chars@.len(),
            text@ == chars@.subrange(from as int, i as int),
        decreases to - i,
    {
        text.push(chars[i]);
        i += 1;
        assert(text@ =~= chars@.subrange(from as int, i as int));
    }
    text
}

/// What lies before, between and after each `separator` in `text`.
pub fn split_text(text: &str, separator: &str) -> (parts: Vec<String>)
    requires
        separator@.len() > 0,
    ensures
        texts(parts@) == split_at_each(text@, separator@),
{
    let separator_chars: Vec<char> = characters(separator);
    let mut rest: Vec<char> = characters(text);
    let mut parts: Vec<String> = Vec::new();
    let ghost mut done: Seq<Seq<char>> = Seq::empty();
    assert(texts(parts@) =~= done);
    assert(done + split_at_each(rest@, separator@) =~= split_at_each(text@, separator@));
    loop
        invariant_except_break
            separator_chars@ == separator@,
            separator@.len() > 0,
            texts(parts@) == done,
            done + split_at_each(rest@, separator@) == split_at_each(text@, separator@),
        ensures
            texts(parts@) == split_at_each(text@, separator@),
        decreases rest@.len(),
    {
        let ghost before = parts@;
        proof {
            lemma_first_from(rest@, separator@, 0);
        }
        match find_first(&rest, &separator_chars) {
            Some(at) => {
                let part: String = text_of(&rest, 0, at);
                let ghost view = part@;
                assert(view =~= rest@.take(at as int));
                parts.push(part);
                assert(at + separator_chars.len() <= rest.len());
                let tail: Vec<char> = rest.split_off(at + separator_chars.len());
                proof {
                    let old_rest = rest@ + tail@;
                    assert(view =~= old_rest.take(at as int));
                    assert(tail@ =~= old_rest.skip(at + separator@.len()));
                    assert(texts(parts@) =~= done.push(view));
                    assert(done + (seq![view] + split_at_each(tail@, separator@)) =~= done.push(
                        view,
                    ) + split_at_each(tail@, separator@));
                    done = done.push(view);
                }
                rest = tail;
            },
            None => {
                let part: String = text_of(&rest, 0, rest.len());
                let ghost view = part@;
                assert(view =~= rest@);
                parts.push(part);
                assert(texts(parts@) =~= texts(before).push(view));
                assert(done + seq![rest@] =~= done.push(view));
                break;
            },
        }
    }
    parts
}

/// `parts` one after another, with `separator` between them.
pub open spec fn joined_by(parts: Seq<Seq<char>>, separator: Seq<char>) -> Seq<char>
    decreases parts.len(),
{
    if parts.len() == 0 {
        Seq::empty()
    } else if parts.len() == 1 {
        parts[0]
    } else {
        joined_by(parts.drop_last(), separator) + separator + parts.last()
    }
}

/// Joining, taken from the front.
proof fn lemma_joined_front(first: Seq<char>, rest: Seq<Seq<char>>, separator: Seq<char>)
    requires
        rest.len() > 0,
    ensures
        joined_by(seq![first] + rest, separator) == first + separator + joined_by(rest, separator),
    decreases rest.len(),
{
    let all = seq![first] + rest;
    assert(all.drop_last() =~= seq![first] + rest.drop_last());
    if rest.len() == 1 {
        assert(all.drop_last() =~= seq![first]);
        assert(joined_by(all.drop_last(), separator) == first);
        assert(all.last() == rest[0]);
    } else {
        lemma_joined_front(first, rest.drop_last(), separator);
        assert(joined_by(all, separator) =~= first + separator + joined_by(rest, separator));
    }
}

/// Splitting a text and joining the parts again gives the text.
pub proof fn law_split_and_join(text: Seq<char>, separator: Seq<char>)
    requires
        separator.len() > 0,
    ensures
        joined_by(split_at_each(text, separator), separator) == text,
        split_at_each(text, separator).len() > 0,
    decreases text.len(),
{
    lemma_first_from(text, separator, 0);
    match first_from(text, separator, 0) {
        Some(at) => {
            lemma_found(text, separator, 0);
            let rest = text.skip(at + separator.len());
            law_split_and_join(rest, separator);
            lemma_joined_front(text.take(at), split_at_each(rest, separator), separator);
            assert(text =~= text.take(at) + separator + rest) by {
                assert(text.subrange(at, at + separator.len()) =~= separator);
                assert forall|i: int| 0 <= i < text.len() implies text[i] == (text.take(at)
                    + separator + rest)[i] by {
                    if at <= i < at + separator.len() {
                        assert(text.subrange(at, at + separator.len())[i - at] == text[i]);
                    }
                }
            }
        },
        None => {},
    }
}

/// Where `first_from` finds a part, it stands.
proof fn lemma_found(whole: Seq<char>, part: Seq<char>, from: int)
    requires
        0 <= from,
    ensures
        first_from(whole, part, from) matches Some(at) ==> stands(whole, part, at),
    decreases whole.len() + 1 - from,
{
    if from + part.len() <= whole.len() && !stands(whole, part, from) {
        lemma_found(whole, part, from + 1);
    }
}

/// That many spaces.
pub open spec fn spaces(n: nat) -> Seq<char> {
    Seq::new(n, |i: int| ' ')
}

/// Adds that many spaces to the end of `text`.
pub fn push_spaces(text: &mut String, n: usize)
    ensures
        final(text)@ == old(text)@ + spaces(n as nat),
{
    let mut i: usize = 0;
    assert(text@ =~= old(text)@ + spaces(0));
    while i < n
        invariant
            i <= n,
            text@ == old(text)@ + spaces(i as nat),
        decreases n - i,
    {
        text.push(' ');
        i += 1;
        assert(text@ =~= old(text)@ + spaces(i as nat));
    }
}

/// Where a part first stands: nowhere before that, and nowhere at all where it is not
/// found.
proof fn lemma_first_is_first(whole: Seq<char>, part: Seq<char>, from: int, at: int)
    requires
        0 <= from <= at,
    ensures
        first_from(whole, part, from) is None ==> !stands(whole, part, at),
        first_from(whole, part, from) matches Some(found) ==> at < found ==> !stands(
            whole,
            part,
            at,
        ),
    decreases whole.len() + 1 - from,
{
    if from + part.len() <= whole.len() && !stands(whole, part, from) && from < at {
        lemma_first_is_first(whole, part, from + 1, at);
    }
}

/// Splitting is complete: the separator stands in none of the parts.
pub proof fn law_split_fully(text: Seq<char>, separator: Seq<char>, k: int, at: int)
    requires
        separator.len() > 0,
        0 <= k < split_at_each(text, separator).len(),
    ensures
        !stands(split_at_each(text, separator)[k], separator, at),
    decreases text.len(),
{
    lemma_first_from(text, separator, 0);
    match first_from(text, separator, 0) {
        Some(found) => {
            let head = text.take(found);
            let rest = text.skip(found + separator.len());
            if k == 0 {
                if stands(head, separator, at) {
                    assert(head.subrange(at, at + separator.len()) =~= text.subrange(
                        at,
                        at + separator.len(),
                    ));
                    lemma_first_is_first(text, separator, 0, at);
                }
            } else {
                law_split_fully(rest, separator, k - 1, at);
            }
        },
        None => {
            if at >= 0 {
                lemma_first_is_first(text, separator, 0, at);
            }
        },
    }
}

} // verus!
