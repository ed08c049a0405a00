//! Small text utilities: comparing strings and rendering numbers.

use vstd::prelude::*;
use vstd::string::*;
use vstd::utf8::*;

verus! {

/// Whether two string slices hold the same characters. They do exactly
/// when their UTF-8 bytes are the same.
pub fn str_eq(a: &str, b: &str) -> (same: bool)
    ensures
        same == (a@ == b@),
{
    let x = a.as_bytes();
    let y = b.as_bytes();
    proof {
        encode_utf8_decode_utf8(a@);
        encode_utf8_decode_utf8(b@);
    }
    if x.len() != y.len() {
        return false;
    }
    let mut i: usize = 0;
    while i < x.len()
        invariant
            i <= x.len(),
            x@.len() == y@.len(),
            x@ == encode_utf8(a@),
            y@ == encode_utf8(b@),
            forall|j: int| 0 <= j < i ==> x@[j] == y@[j],
        decreases x.len() - i,
    {
        if x[i] != y[i] {
            return false;
        }
        i += 1;
    }
    assert(x@ =~= y@);
    true
}

/// The length of a string in bytes, as UTF-8 stores it.
pub fn byte_len(s: &str) -> (n: usize)
    ensures
        n == encode_utf8(s@).len(),
{
    s.as_bytes().len()
}

/// The decimal digit that stands for `d`.
pub open spec fn digit_char(d: int) -> char {
    if d == 0 {
        '0'
    } else if d == 1 {
        '1'
    } else if d == 2 {
        '2'
    } else if d == 3 {
        '3'
    } else if d == 4 {
        '4'
    } else if d == 5 {
        '5'
    } else if d == 6 {
        '6'
    } else if d == 7 {
        '7'
    } else if d == 8 {
        '8'
    } else {
        '9'
    }
}

/// The decimal numeral of `n`, most significant digit first, without
/// leading zeros (`0` itself is written "0").
pub open spec fn decimal(n: nat) -> Seq<char>
    decreases n,
{
    if n < 10 {
        seq![digit_char(n as int)]
    } else {
        decimal(n / 10).push(digit_char((n % 10) as int))
    }
}

fn digit_str(d: u64) -> (s: &'static str)
    requires
        d < 10,
    ensures
        s@ == seq![digit_char(d as int)],
{
    proof {
        reveal_strlit("0");
        reveal_strlit("1");
        reveal_strlit("2");
        reveal_strlit("3");
        reveal_strlit("4");
        reveal_strlit("5");
        reveal_strlit("6");
        reveal_strlit("7");
        reveal_strlit("8");
        reveal_strlit("9");
    }
    let s = if d == 0 {
        "0"
    } else if d == 1 {
        "1"
    } else if d == 2 {
        "2"
    } else if d == 3 {
        "3"
    } else if d == 4 {
        "4"
    } else if d == 5 {
        "5"
    } else if d == 6 {
        "6"
    } else if d == 7 {
        "7"
    } else if d == 8 {
        "8"
    } else {
        "9"
    };
    assert(s@ =~= seq![digit_char(d as int)]);
    s
}

/// Writes `n` in decimal.
pub fn u64_to_decimal(n: u64) -> (s: String)
    ensures
        s@ == decimal(n as nat),
    decreases n,
{
    if n < 10 {
        String::from_str(digit_str(n))
    } else {
        let mut s = u64_to_decimal(n / 10);
        s.append(digit_str(n % 10));
        assert(s@ =~= decimal(n as nat));
        s
    }
}

/// The characters that identifying fields of a device may not hold.
pub open spec fn is_forbidden_char(c: char) -> bool {
    c == '\'' || c == '"' || c == '\\' || c == '/' || c == '{' || c == '}' || c == '[' || c == ']'
        || c == '!' || c == '`' || c == '*' || c == '&'
}

/// Whether a text holds one of the forbidden characters.
pub open spec fn has_forbidden_char(s: Seq<char>) -> bool {
    exists|i: int| 0 <= i < s.len() && is_forbidden_char(#[trigger] s[i])
}

/// Looks for a forbidden character in `s`.
pub fn contains_forbidden_char(s: &str) -> (found: bool)
    ensures
        found == has_forbidden_char(s@),
{
    let mut found = false;
    for c in it: s.chars()
        invariant
            it.seq() == s@,
            found == (exists|i: int| 0 <= i < it.index() && is_forbidden_char(#[trigger] s@[i])),
    {
        if c == '\'' || c == '"' || c == '\\' || c == '/' || c == '{' || c == '}' || c == '['
            || c == ']' || c == '!' || c == '`' || c == '*' || c == '&' {
            found = true;
        }
    }
    found
}

/// Whether one of the strings of a list reads `s`.
pub open spec fn list_has(list: Seq<String>, s: Seq<char>) -> bool {
    exists|i: int| 0 <= i < list.len() && (#[trigger] list[i])@ == s
}

/// Looks for `s` in a list of strings.
pub fn list_contains(list: &Vec<String>, s: &str) -> (found: bool)
    ensures
        found == list_has(list@, s@),
{
    let mut i: usize = 0;
    while i < list.len()
        invariant
            i <= list.len(),
            forall|j: int| 0 <= j < i ==> (#[trigger] list@[j])@ != s@,
        decreases list.len() - i,
    {
        if str_eq(list[i].as_str(), s) {
            return true;
        }
        i += 1;
    }
    false
}

/// The lower-case hexadecimal digit that stands for `d`.
pub open spec fn hex_char(d: int) -> char {
    if d < 10 {
        digit_char(d)
    } else if d == 10 {
        'a'
    } else if d == 11 {
        'b'
    } else if d == 12 {
        'c'
    } else if d == 13 {
        'd'
    } else if d == 14 {
        'e'
    } else {
        'f'
    }
}

/// The `n` least significant hexadecimal digits of `v`, most significant
/// first, in lower case.
pub open spec fn hex_digits(v: nat, n: nat) -> Seq<char>
    decreases n,
{
    if n == 0 {
        Seq::empty()
    } else {
        hex_digits(v / 16, (n - 1) as nat).push(hex_char((v % 16) as int))
    }
}

fn hex_str(d: u64) -> (s: &'static str)
    requires
        d < 16,
    ensures
        s@ == seq![hex_char(d as int)],
{
    if d < 10 {
        digit_str(d)
    } else {
        proof {
            reveal_strlit("a");
            reveal_strlit("b");
            reveal_strlit("c");
            reveal_strlit("d");
            reveal_strlit("e");
            reveal_strlit("f");
        }
        let s = if d == 10 {
            "a"
        } else if d == 11 {
            "b"
        } else if d == 12 {
            "c"
        } else if d == 13 {
            "d"
        } else if d == 14 {
            "e"
        } else {
            "f"
        };
        assert(s@ =~= seq![hex_char(d as int)]);
        s
    }
}

/// Writes the `width` least significant hexadecimal digits of `n`, in lower
/// case and with leading zeros.
pub fn to_hex(n: u64, width: u32) -> (s: String)
    ensures
        s@ == hex_digits(n as nat, width as nat),
    decreases width,
{
    if width == 0 {
        let s = String::new();
        assert(s@ =~= hex_digits(n as nat, 0));
        s
    } else {
        let mut s = to_hex(n / 16, width - 1);
        s.append(hex_str(n % 16));
        assert(s@ =~= hex_digits(n as nat, width as nat));
        s
    }
}

/// The texts of `words` in a row, each with `sep` before it.
pub open spec fn each_prefixed(sep: Seq<char>, words: Seq<Seq<char>>) -> Seq<char>
    decreases words.len(),
{
    if words.len() == 0 {
        Seq::empty()
    } else {
        each_prefixed(sep, words.drop_last()) + sep + words.last()
    }
}

/// The texts of `words` in a row with `sep` between them.
pub open spec fn joined(sep: Seq<char>, words: Seq<Seq<char>>) -> Seq<char> {
    if words.len() == 0 {
        Seq::empty()
    } else {
        words[0] + each_prefixed(sep, words.skip(1))
    }
}

/// The characters of each string of a list.
pub open spec fn texts_of(v: Seq<String>) -> Seq<Seq<char>> {
    Seq::new(v.len(), |i: int| v[i]@)
}

/// Appends each of `words` to `s`, with `sep` before each.
pub fn append_each(s: &mut String, sep: &str, words: &Vec<String>)
    ensures
        final(s)@ == old(s)@ + each_prefixed(sep@, texts_of(words@)),
{
    let ghost start = s@;
    let mut i: usize = 0;
    assert(texts_of(words@).take(0) =~= Seq::<Seq<char>>::empty());
    assert(s@ =~= start + each_prefixed(sep@, texts_of(words@).take(0)));
    while i < words.len()
        invariant
            i <= words.len(),
            s@ == start + each_prefixed(sep@, texts_of(words@).take(i as int)),
        decreases words.len() - i,
    {
        s.append(sep);
        s.append(words[i].as_str());
        proof {
            let all = texts_of(words@);
            assert(all.take(i + 1).drop_last() =~= all.take(i as int));
            assert(all.take(i + 1).last() == words@[i as int]@);
            assert(s@ =~= start + each_prefixed(sep@, all.take(i + 1)));
        }
        i += 1;
    }
    assert(texts_of(words@).take(words@.len() as int) =~= texts_of(words@));
}

/// Writes `words` in a row with `sep` between them.
pub fn join(sep: &str, words: &Vec<String>) -> (s: String)
    ensures
        s@ == joined(sep@, texts_of(words@)),
{
    if words.len() == 0 {
        return String::new();
    }
    let mut s = words[0].clone();
    let ghost all = texts_of(words@);
    let mut i: usize = 1;
    assert(all.skip(1).take(0) =~= Seq::<Seq<char>>::empty());
    assert(s@ =~= all[0] + each_prefixed(sep@, all.skip(1).take(0)));
    while i < words.len()
        invariant
            1 <= i <= words.len(),
            all == texts_of(words@),
            s@ == all[0] + each_prefixed(sep@, all.skip(1).take(i - 1)),
        decreases words.len() - i,
    {
        s.append(sep);
        s.append(words[i].as_str());
        proof {
            assert(all.skip(1).take(i as int).drop_last() =~= all.skip(1).take(i - 1));
            assert(all.skip(1).take(i as int).last() == words@[i as int]@);
            assert(s@ =~= all[0] + each_prefixed(sep@, all.skip(1).take(i as int)));
        }
        i += 1;
    }
    assert(all.skip(1).take(words@.len() - 1) =~= all.skip(1));
    s
}

/// `n` tabs.
pub open spec fn tabs(n: nat) -> Seq<char>
    decreases n,
{
    if n == 0 {
        Seq::empty()
    } else {
        tabs((n - 1) as nat).push('\t')
    }
}

/// The causes of an error, each introduced by "Caused by" and indented
/// one tab more than the one before it.
pub open spec fn cause_chain(causes: Seq<Seq<char>>) -> Seq<char>
    decreases causes.len(),
{
    if causes.len() == 0 {
        Seq::empty()
    } else {
        cause_chain(causes.drop_last()) + tabs((causes.len() - 1) as nat) + "- Caused by:\n"@ + tabs(
            (causes.len() - 1) as nat,
        ) + "  "@ + causes.last()
    }
}

/// Renders the causes of an error, the nearest first.
pub fn render_causes(causes: &Vec<String>) -> (s: String)
    ensures
        s@ == cause_chain(texts_of(causes@)),
{
    let mut s = String::new();
    let mut indent = String::new();
    let ghost all = texts_of(causes@);
    let mut i: usize = 0;
    proof {
        reveal_strlit("\t");
        assert("\t"@ =~= seq!['\t']);
        assert(all.take(0) =~= Seq::<Seq<char>>::empty());
        assert(s@ =~= cause_chain(all.take(0)));
        assert(indent@ =~= tabs(0));
    }
    while i < causes.len()
        invariant
            i <= causes.len(),
            all == texts_of(causes@),
            s@ == cause_chain(all.take(i as int)),
            indent@ == tabs(i as nat),
            "\t"@ == seq!['\t'],
        decreases causes.len() - i,
    {
        s.append(indent.as_str());
        s.append("- Caused by:\n");
        s.append(indent.as_str());
        s.append("  ");
        s.append(causes[i].as_str());
        proof {
            assert(all.take(i + 1).drop_last() =~= all.take(i as int));
            assert(all.take(i + 1).last() == causes@[i as int]@);
            assert(s@ =~= cause_chain(all.take(i + 1)));
        }
        indent.append("\t");
        assert(indent@ =~= tabs((i + 1) as nat));
        i += 1;
    }
    assert(all.take(causes@.len() as int) =~= all);
    s
}

} // verus!
