//! Text helpers shared by the statement builders.

use vstd::prelude::*;

verus! {

/// `String::push` appends the character to the end of the string.
pub assume_specification[ String::push ](s: &mut String, c: char)
    ensures
        final(s)@ == old(s)@.push(c),
;

/// The views of a sequence of strings.
pub open spec fn texts(strings: Seq<String>) -> Seq<Seq<char>> {
    Seq::new(strings.len(), |i: int| strings[i]@)
}

/// The parts in order, with the separator between each two neighbours.
pub open spec fn join(parts: Seq<Seq<char>>, separator: Seq<char>) -> Seq<char>
    decreases parts.len(),
{
    if parts.len() == 0 {
        Seq::empty()
    } else if parts.len() == 1 {
        parts[0]
    } else {
        join(parts.drop_last(), separator) + separator + parts.last()
    }
}

/// The parts in order, nothing between them.
pub open spec fn concat(parts: Seq<Seq<char>>) -> Seq<char>
    decreases parts.len(),
{
    if parts.len() == 0 {
        Seq::empty()
    } else {
        concat(parts.drop_last()) + parts.last()
    }
}

proof fn lemma_texts_push(strings: Seq<String>, last: String)
    ensures
        texts(strings.push(last)) == texts(strings).push(last@),
{
}

pub(crate) proof fn lemma_concat_push(parts: Seq<Seq<char>>, last: Seq<char>)
    ensures
        concat(parts.push(last)) == concat(parts) + last,
{
    assert(parts.push(last).drop_last() =~= parts);
}

proof fn lemma_join_push(parts: Seq<Seq<char>>, last: Seq<char>, separator: Seq<char>)
    ensures
        join(parts.push(last), separator) == if parts.len() == 0 {
            last
        } else {
            join(parts, separator) + separator + last
        },
{
    assert(parts.push(last).drop_last() =~= parts);
}

/// Joins the strings with the separator between each two neighbours.
pub fn join_strings(parts: &Vec<String>, separator: &str) -> (joined: String)
    ensures
        joined@ == join(texts(parts@), separator@),
{
    let mut joined = String::new();
    let mut i: usize = 0;
    while i < parts.len()
        invariant
            i <= parts.len(),
            joined@ == join(texts(parts@.take(i as int)), separator@),
        decreases parts.len() - i,
    {
        proof {
            assert(parts@.take(i as int + 1) =~= parts@.take(i as int).push(parts@[i as int]));
            lemma_texts_push(parts@.take(i as int), parts@[i as int]);
            lemma_join_push(texts(parts@.take(i as int)), parts@[i as int]@, separator@);
        }
        if i > 0 {
            joined.append(separator);
        }
        joined.append(parts[i].as_str());
        i += 1;
    }
    proof {
        assert(parts@.take(parts.len() as int) =~= parts@);
    }
    joined
}

/// The character of one decimal digit.
pub open spec fn digit(d: nat) -> char {
    if d == 0 {
        '0'
    } else if d == 1 {
        '1'
    } else if d == 2 {
        '2'
    } else if d == 3 {
        '3'
    } else if d == 4 {
        '4'
    } else if d == 5 {
        '5'
    } else if d == 6 {
        '6'
    } else if d == 7 {
        '7'
    } else if d == 8 {
        '8'
    } else {
        '9'
    }
}

/// The decimal numeral of a number: no sign, no leading zero but for zero itself.
pub open spec fn decimal(n: nat) -> Seq<char>
    decreases n,
{
    if n < 10 {
        seq![digit(n)]
    } else {
        decimal(n / 10).push(digit(n % 10))
    }
}

fn digit_char(d: u128) -> (c: char)
    requires
        d < 10,
    ensures
        c == digit(d as nat),
{
    if d == 0 {
        '0'
    } else if d == 1 {
        '1'
    } else if d == 2 {
        '2'
    } else if d == 3 {
        '3'
    } else if d == 4 {
        '4'
    } else if d == 5 {
        '5'
    } else if d == 6 {
        '6'
    } else if d == 7 {
        '7'
    } else if d == 8 {
        '8'
    } else {
        '9'
    }
}

/// Writes a number as its decimal numeral.
pub fn decimal_string(n: u128) -> (numeral: String)
    ensures
        numeral@ == decimal(n as nat),
    decreases n,
{
    if n < 10 {
        let mut numeral = String::new();
        numeral.push(digit_char(n));
        numeral
    } else {
        let mut numeral = decimal_string(n / 10);
        numeral.push(digit_char(n % 10));
        numeral
    }
}

/// How many times the character stands at the start of the text.
pub open spec fn leading(text: Seq<char>, c: char) -> nat
    decreases text.len(),
{
    if text.len() > 0 && text[0] == c {
        1 + leading(text.drop_first(), c)
    } else {
        0
    }
}

/// How many times the character stands at the end of the text.
pub open spec fn trailing(text: Seq<char>, c: char) -> nat
    decreases text.len(),
{
    if text.len() > 0 && text.last() == c {
        1 + trailing(text.drop_last(), c)
    } else {
        0
    }
}

/// The text without the run of the character at its start and the run at its end.
pub open spec fn trimmed(text: Seq<char>, c: char) -> Seq<char> {
    if leading(text, c) == text.len() {
        Seq::empty()
    } else {
        text.subrange(leading(text, c) as int, text.len() - trailing(text, c))
    }
}

proof fn lemma_leading_is(text: Seq<char>, c: char, n: nat)
    requires
        n <= text.len(),
        forall|i: int| 0 <= i < n ==> text[i] == c,
        n < text.len() ==> text[n as int] != c,
    ensures
        leading(text, c) == n,
    decreases text.len(),
{
    if n > 0 {
        lemma_leading_is(text.drop_first(), c, (n - 1) as nat);
    }
}

proof fn lemma_trailing_is(text: Seq<char>, c: char, n: nat)
    requires
        n <= text.len(),
        forall|i: int| text.len() - n <= i < text.len() ==> text[i] == c,
        n < text.len() ==> text[text.len() - n - 1] != c,
    ensures
        trailing(text, c) == n,
    decreases text.len(),
{
    if n > 0 {
        lemma_trailing_is(text.drop_last(), c, (n - 1) as nat);
    }
}

/// Removes the character from both ends of the text, as often as it stands there.
pub fn trim_matches(text: &str, c: char) -> (kept: String)
    ensures
        kept@ == trimmed(text@, c),
{
    let n = text.unicode_len();
    let mut start: usize = 0;
    while start < n && text.get_char(start) == c
        invariant
            n == text@.len(),
            start <= n,
            forall|i: int| 0 <= i < start ==> text@[i] == c,
        decreases n - start,
    {
        start += 1;
    }
    proof {
        lemma_leading_is(text@, c, start as nat);
    }
    if start == n {
        return String::new();
    }
    let mut end: usize = n;
    while end > start && text.get_char(end - 1) == c
        invariant
            n == text@.len(),
            start < n,
            start <= end <= n,
            text@[start as int] != c,
            forall|i: int| end <= i < n ==> text@[i] == c,
        decreases end,
    {
        end -= 1;
    }
    proof {
        lemma_trailing_is(text@, c, (n - end) as nat);
    }
    String::from_str(text.substring_char(start, end))
}

/// The index of the first of the names that equals the given one, or the
/// number of names if none does.
pub open spec fn first_index(names: Seq<Seq<char>>, name: Seq<char>) -> int
    decreases names.len(),
{
    if names.len() == 0 {
        0
    } else if names[0] == name {
        0
    } else {
        1 + first_index(names.drop_first(), name)
    }
}

/// Whether no name occurs twice.
pub open spec fn distinct(names: Seq<Seq<char>>) -> bool {
    forall|i: int, j: int| 0 <= i < j < names.len() ==> names[i] != names[j]
}

pub(crate) proof fn lemma_first_index(names: Seq<Seq<char>>, name: Seq<char>)
    ensures
        0 <= first_index(names, name) <= names.len(),
        first_index(names, name) < names.len() ==> names[first_index(names, name)] == name,
        forall|i: int| 0 <= i < first_index(names, name) ==> names[i] != name,
    decreases names.len(),
{
    if names.len() > 0 && names[0] != name {
        let rest = names.drop_first();
        lemma_first_index(rest, name);
        assert forall|i: int| 0 <= i < first_index(names, name) implies names[i] != name by {
            if i > 0 {
                assert(names[i] == rest[i - 1]);
            }
        }
    }
}

pub(crate) proof fn lemma_first_index_is(names: Seq<Seq<char>>, name: Seq<char>, index: int)
    requires
        0 <= index <= names.len(),
        index < names.len() ==> names[index] == name,
        forall|i: int| 0 <= i < index ==> names[i] != name,
    ensures
        first_index(names, name) == index,
{
    lemma_first_index(names, name);
}

/// Finds the first of the names that equals the given one.
pub fn find(names: &Vec<String>, name: &String) -> (index: usize)
    ensures
        index == first_index(texts(names@), name@),
{
    let mut i: usize = 0;
    while i < names.len()
        invariant
            i <= names.len(),
            forall|k: int| 0 <= k < i ==> texts(names@)[k] != name@,
        decreases names.len() - i,
    {
        if names[i] == *name {
            proof {
                lemma_first_index_is(texts(names@), name@, i as int);
            }
            return i;
        }
        i += 1;
    }
    proof {
        lemma_first_index_is(texts(names@), name@, i as int);
    }
    i
}

/// Tests whether no name occurs twice.
pub fn all_distinct(names: &Vec<String>) -> (none_twice: bool)
    ensures
        none_twice == distinct(texts(names@)),
{
    let mut j: usize = 0;
    while j < names.len()
        invariant
            j <= names.len(),
            forall|a: int, b: int| 0 <= a < b < j ==> texts(names@)[a] != texts(names@)[b],
        decreases names.len() - j,
    {
        let mut i: usize = 0;
        while i < j
            invariant
                i <= j < names.len(),
                forall|a: int| 0 <= a < i ==> texts(names@)[a] != texts(names@)[j as int],
            decreases j - i,
        {
            if names[i] == names[j] {
                assert(texts(names@)[i as int] == texts(names@)[j as int]);
                return false;
            }
            i += 1;
        }
        j += 1;
    }
    true
}

/// The first `count` names without those that an earlier one equals.
pub open spec fn first_occurrences(names: Seq<Seq<char>>, count: nat) -> Seq<Seq<char>>
    decreases count,
{
    if count == 0 || count > names.len() {
        Seq::empty()
    } else {
        let earlier = first_occurrences(names, (count - 1) as nat);
        if earlier.contains(names[count - 1]) {
            earlier
        } else {
            earlier.push(names[count - 1])
        }
    }
}

pub(crate) proof fn lemma_first_occurrences(names: Seq<Seq<char>>, count: nat)
    requires
        count <= names.len(),
    ensures
        forall|k: int|
            0 <= k < count ==> first_occurrences(names, count).contains(#[trigger] names[k]),
        forall|name: Seq<char>| #[trigger]
            first_occurrences(names, count).contains(name) ==> 0 <= first_index(names, name)
                < count,
        distinct(first_occurrences(names, count)),
    decreases count,
{
    if count > 0 {
        lemma_first_occurrences(names, (count - 1) as nat);
        let earlier = first_occurrences(names, (count - 1) as nat);
        let last = names[count - 1];
        assert forall|k: int| 0 <= k < count implies first_occurrences(names, count).contains(
            #[trigger] names[k],
        ) by {
            if k < count - 1 {
                let at = choose|at: int| 0 <= at < earlier.len() && earlier[at] == names[k];
                assert(first_occurrences(names, count)[at] == names[k]);
            } else if !earlier.contains(last) {
                assert(earlier.push(last)[earlier.len() as int] == last);
            }
        }
        assert forall|name: Seq<char>| #[trigger]
            first_occurrences(names, count).contains(name) implies 0 <= first_index(names, name)
            < count by {
            lemma_first_index(names, name);
            if !earlier.contains(name) {
                // The name is the one that was added last.
                let at = choose|at: int|
                    0 <= at < first_occurrences(names, count).len() && first_occurrences(
                        names,
                        count,
                    )[at] == name;
                if at < earlier.len() {
                    assert(earlier[at] == name);
                }
                assert(name == last);
                if first_index(names, name) >= count {
                    assert(names[count - 1] != name);
                }
            }
        }
    }
}

} // verus!
