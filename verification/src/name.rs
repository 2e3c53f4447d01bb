//! The grammar of a file name: its stem, its extension, and numbered variants.
//!
//! A name splits at its last dot. A name without a dot, or whose only dot is its first
//! character, has no extension and is its own stem.

use vstd::prelude::*;
use vstd::string::StrSliceExecFns;
use vstd::string::StringExecFns;

verus! {

/// The position of the last `c` in `s`, or `-1` where `s` holds none.
pub open spec fn last_index_of(s: Seq<char>, c: char) -> int
    decreases s.len(),
{
    if s.len() == 0 {
        -1
    } else if s.last() == c {
        s.len() - 1
    } else {
        last_index_of(s.drop_last(), c)
    }
}

/// `last_index_of` finds an occurrence after which there is no other, and finds
/// nothing only where there is nothing to find.
pub proof fn lemma_last_index_of(s: Seq<char>, c: char)
    ensures
        -1 <= last_index_of(s, c) < s.len(),
        last_index_of(s, c) >= 0 ==> s[last_index_of(s, c)] == c,
        forall|j: int| last_index_of(s, c) < j < s.len() ==> s[j] != c,
    decreases s.len(),
{
    if s.len() > 0 && s.last() != c {
        let head = s.drop_last();
        lemma_last_index_of(head, c);
        assert forall|j: int| last_index_of(s, c) < j < s.len() implies s[j] != c by {
            if j < head.len() {
                assert(head[j] == s[j]);
            }
        }
    }
}

/// An index that holds `c` with no `c` after it is the one `last_index_of` gives.
pub proof fn lemma_last_index_of_is(s: Seq<char>, c: char, at: int)
    requires
        -1 <= at < s.len(),
        at >= 0 ==> s[at] == c,
        forall|j: int| at < j < s.len() ==> s[j] != c,
    ensures
        last_index_of(s, c) == at,
    decreases s.len(),
{
    if s.len() > 0 && s.last() != c {
        lemma_last_index_of_is(s.drop_last(), c, at);
    }
}

/// Whether a component names a file or directory: it is not empty and is neither of
/// the two relative markers `.` and `..`.
pub open spec fn is_file_name(name: Seq<char>) -> bool {
    name.len() > 0 && name != seq!['.'] && name != seq!['.', '.']
}

/// The part of a name before its last dot; the whole name where it has no dot or
/// only a leading one.
pub open spec fn stem_of(name: Seq<char>) -> Seq<char> {
    let dot = last_index_of(name, '.');
    if dot > 0 {
        name.subrange(0, dot)
    } else {
        name
    }
}

/// The part of a name after its last dot, if it has a dot that is not its first
/// character.
pub open spec fn extension_of(name: Seq<char>) -> Option<Seq<char>> {
    let dot = last_index_of(name, '.');
    if dot > 0 {
        Some(name.subrange(dot + 1, name.len() as int))
    } else {
        None
    }
}

/// A name is its stem alone, or its stem, a dot and its extension; and an extension
/// holds no dot.
pub proof fn lemma_name_splits(name: Seq<char>)
    ensures
        match extension_of(name) {
            Some(ext) => name == stem_of(name) + seq!['.'] + ext && stem_of(name).len() > 0 && (
            forall|i: int| 0 <= i < ext.len() ==> ext[i] != '.'),
            None => stem_of(name) == name,
        },
{
    lemma_last_index_of(name, '.');
    let dot = last_index_of(name, '.');
    if dot > 0 {
        let ext = name.subrange(dot + 1, name.len() as int);
        assert(name =~= name.subrange(0, dot) + seq!['.'] + ext);
        assert forall|i: int| 0 <= i < ext.len() implies ext[i] != '.' by {
            assert(ext[i] == name[dot + 1 + i]);
        }
    }
}

/// The decimal digit for a value below ten.
pub open spec fn digit(d: nat) -> char {
    seq!['0', '1', '2', '3', '4', '5', '6', '7', '8', '9'][d as int]
}

/// The decimal numeral of `n`, without leading zeros.
pub open spec fn decimal(n: nat) -> Seq<char>
    decreases n,
{
    if n < 10 {
        seq![digit(n)]
    } else {
        decimal(n / 10).push(digit(n % 10))
    }
}

/// The value of a digit character, and ten for any other character.
pub open spec fn digit_value(c: char) -> nat {
    if c == '0' {
        0
    } else if c == '1' {
        1
    } else if c == '2' {
        2
    } else if c == '3' {
        3
    } else if c == '4' {
        4
    } else if c == '5' {
        5
    } else if c == '6' {
        6
    } else if c == '7' {
        7
    } else if c == '8' {
        8
    } else if c == '9' {
        9
    } else {
        10
    }
}

/// The number that a numeral stands for, read digit by digit.
pub open spec fn numeral_value(s: Seq<char>) -> nat
    decreases s.len(),
{
    if s.len() == 0 {
        0
    } else {
        numeral_value(s.drop_last()) * 10 + digit_value(s.last())
    }
}

/// Reading the numeral of a number gives the number back.
pub proof fn lemma_decimal_value(n: nat)
    ensures
        numeral_value(decimal(n)) == n,
        decimal(n).len() >= 1,
    decreases n,
{
    if n < 10 {
        assert(decimal(n).drop_last() =~= Seq::<char>::empty());
        assert(numeral_value(decimal(n).drop_last()) == 0);
    } else {
        lemma_decimal_value(n / 10);
        assert(decimal(n).drop_last() =~= decimal(n / 10));
    }
}

/// Different numbers have different numerals.
pub proof fn lemma_decimal_injective(a: nat, b: nat)
    requires
        decimal(a) == decimal(b),
    ensures
        a == b,
{
    lemma_decimal_value(a);
    lemma_decimal_value(b);
}

/// The one-character text of a digit.
fn digit_text(d: u64) -> (res: &'static str)
    requires
        d < 10,
    ensures
        res@ == seq![digit(d as nat)],
{
    proof {
        reveal_strlit("0");
        reveal_strlit("1");
        reveal_strlit("2");
        reveal_strlit("3");
        reveal_strlit("4");
        reveal_strlit("5");
        reveal_strlit("6");
        reveal_strlit("7");
        reveal_strlit("8");
        reveal_strlit("9");
    }
    let text = if d == 0 {
        "0"
    } else if d == 1 {
        "1"
    } else if d == 2 {
        "2"
    } else if d == 3 {
        "3"
    } else if d == 4 {
        "4"
    } else if d == 5 {
        "5"
    } else if d == 6 {
        "6"
    } else if d == 7 {
        "7"
    } else if d == 8 {
        "8"
    } else {
        "9"
    };
    assert(text@ =~= seq![digit(d as nat)]);
    text
}

/// Writes `n` in decimal.
pub fn decimal_text(n: u64) -> (res: String)
    ensures
        res@ == decimal(n as nat),
    decreases n,
{
    if n < 10 {
        String::from_str(digit_text(n))
    } else {
        let head = decimal_text(n / 10);
        let res = head.concat(digit_text(n % 10));
        assert(res@ =~= decimal(n as nat));
        res
    }
}

/// Finds the last `c` in `text`.
pub fn find_last(text: &str, c: char) -> (res: Option<usize>)
    ensures
        match res {
            Some(at) => at == last_index_of(text@, c) && at < text@.len(),
            None => last_index_of(text@, c) == -1,
        },
{
    let mut i: usize = text.unicode_len();
    while i > 0
        invariant
            i <= text@.len(),
            forall|j: int| i <= j < text@.len() ==> text@[j] != c,
        decreases i,
    {
        i -= 1;
        if text.get_char(i) == c {
            proof {
                lemma_last_index_of_is(text@, c, i as int);
            }
            return Some(i);
        }
    }
    proof {
        lemma_last_index_of_is(text@, c, -1);
    }
    None
}

/// The stem of a file name.
pub fn stem(name: &str) -> (res: String)
    ensures
        res@ == stem_of(name@),
{
    match find_last(name, '.') {
        Some(dot) => {
            if dot > 0 {
                String::from_str(name.substring_char(0, dot))
            } else {
                String::from_str(name)
            }
        },
        None => String::from_str(name),
    }
}

/// The extension of a file name, if it has one.
pub fn extension(name: &str) -> (res: Option<String>)
    ensures
        match res {
            Some(ext) => extension_of(name@) == Some(ext@),
            None => extension_of(name@) is None,
        },
{
    match find_last(name, '.') {
        Some(dot) => {
            if dot > 0 {
                let len = name.unicode_len();
                Some(String::from_str(name.substring_char(dot + 1, len)))
            } else {
                None
            }
        },
        None => None,
    }
}

} // verus!
