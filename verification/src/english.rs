//! Small pieces of English: lists of things in a sentence, and ordinal numbers.
use vstd::prelude::*;
use vstd::string::StringExecFns;

verus! {

/// What follows the element at `i` in a sentence list of `len` elements: ", "
/// between elements, ", and " before the last one, and nothing after it.
pub open spec fn separator(i: int, len: int) -> Seq<char> {
    if i == len - 2 {
        ", and "@
    } else if i < len - 2 {
        ", "@
    } else {
        Seq::empty()
    }
}

/// The first `k` elements of a sentence list of all of `elems`, each followed by
/// its separator.
pub open spec fn sentence_upto(elems: Seq<Seq<char>>, k: int) -> Seq<char>
    decreases k,
{
    if k <= 0 {
        Seq::empty()
    } else {
        sentence_upto(elems, k - 1) + elems[k - 1] + separator(k - 1, elems.len() as int)
    }
}

/// The elements written as an English list: "a", "a, and b", "a, b, and c".
pub open spec fn sentence(elems: Seq<Seq<char>>) -> Seq<char> {
    sentence_upto(elems, elems.len() as int)
}

/// The views of a slice of strings.
pub open spec fn str_views(elements: Seq<&str>) -> Seq<Seq<char>> {
    elements.map_values(|s: &str| s@)
}

/// The views of a sequence of strings.
pub open spec fn string_views(elements: Seq<String>) -> Seq<Seq<char>> {
    elements.map_values(|s: String| s@)
}

/// Joins the elements into an English list, with a serial comma before the
/// final "and".
pub fn get_sentence_list(elements: &[&str]) -> (text: String)
    ensures
        text@ == sentence(str_views(elements@)),
{
    let mut text = String::new();
    let len = elements.len();
    let ghost elems = str_views(elements@);
    let mut i: usize = 0;
    while i < len
        invariant
            len == elements@.len(),
            elems == str_views(elements@),
            i <= len,
            text@ == sentence_upto(elems, i as int),
        decreases len - i,
    {
        text.append(elements[i]);
        if len >= 2 && i == len - 2 {
            text.append(", and ");
        } else if len >= 2 && i < len - 2 {
            text.append(", ");
        }
        i = i + 1;
    }
    text
}

/// Joins what `mapper` makes of each element into an English list, as
/// `get_sentence_list` does. The mapper is called once per element, in order.
pub fn map_sentence_list<In, M: Fn(&In) -> String>(elements: &[In], mapper: M) -> (text: String)
    requires
        forall|i: int| 0 <= i < elements@.len() ==> call_requires(mapper, (&elements@[i],)),
    ensures
        exists|outs: Seq<String>|
            {
                &&& outs.len() == elements@.len()
                &&& forall|i: int|
                    0 <= i < outs.len() ==> call_ensures(mapper, (&elements@[i],), #[trigger] outs[i])
                &&& text@ == sentence(string_views(outs))
            },
{
    let mut mapped: Vec<String> = Vec::new();
    let len = elements.len();
    let mut i: usize = 0;
    while i < len
        invariant
            len == elements@.len(),
            i <= len,
            mapped@.len() == i,
            forall|k: int| 0 <= k < elements@.len() ==> call_requires(mapper, (&elements@[k],)),
            forall|k: int| 0 <= k < i ==> call_ensures(mapper, (&elements@[k],), #[trigger] mapped@[k]),
        decreases len - i,
    {
        let out = mapper(&elements[i]);
        mapped.push(out);
        i = i + 1;
    }
    let ghost elems = string_views(mapped@);
    let mut text = String::new();
    let mut j: usize = 0;
    while j < len
        invariant
            len == mapped@.len(),
            elems == string_views(mapped@),
            j <= len,
            text@ == sentence_upto(elems, j as int),
        decreases len - j,
    {
        text.append(mapped[j].as_str());
        if len >= 2 && j == len - 2 {
            text.append(", and ");
        } else if len >= 2 && j < len - 2 {
            text.append(", ");
        }
        j = j + 1;
    }
    assert(mapped@.len() == elements@.len());
    text
}

/// The decimal digit `d` as a character.
pub open spec fn digit_char(d: int) -> char {
    if d == 0 {
        '0'
    } else if d == 1 {
        '1'
    } else if d == 2 {
        '2'
    } else if d == 3 {
        '3'
    } else if d == 4 {
        '4'
    } else if d == 5 {
        '5'
    } else if d == 6 {
        '6'
    } else if d == 7 {
        '7'
    } else if d == 8 {
        '8'
    } else {
        '9'
    }
}

/// The decimal digits of `n`, without leading zeros.
pub open spec fn decimal(n: nat) -> Seq<char>
    decreases n,
{
    if n < 10 {
        seq![digit_char(n as int)]
    } else {
        decimal(n / 10) + seq![digit_char((n % 10) as int)]
    }
}

/// The English ordinal suffix of `n`: "st" for 1, 21, 31..., "nd" for 2, 22...,
/// "rd" for 3, 23..., and "th" for the rest, the teens included.
pub open spec fn ordinal_suffix(n: nat) -> Seq<char> {
    if n % 10 == 1 && n % 100 != 11 {
        seq!['s', 't']
    } else if n % 10 == 2 && n % 100 != 12 {
        seq!['n', 'd']
    } else if n % 10 == 3 && n % 100 != 13 {
        seq!['r', 'd']
    } else {
        seq!['t', 'h']
    }
}

fn push_digit(text: &mut String, d: u8)
    requires
        d < 10,
    ensures
        final(text)@ == old(text)@ + seq![digit_char(d as int)],
{
    let s = match d {
        0 => "0",
        1 => "1",
        2 => "2",
        3 => "3",
        4 => "4",
        5 => "5",
        6 => "6",
        7 => "7",
        8 => "8",
        _ => "9",
    };
    proof {
        reveal_strlit("0");
        reveal_strlit("1");
        reveal_strlit("2");
        reveal_strlit("3");
        reveal_strlit("4");
        reveal_strlit("5");
        reveal_strlit("6");
        reveal_strlit("7");
        reveal_strlit("8");
        reveal_strlit("9");
    }
    text.append(s);
}

/// `n` written as an English ordinal: "1st", "2nd", "3rd", "4th", "11th",
/// "21st", "112th".
pub fn ordinal_display(n: u8) -> (text: String)
    ensures
        text@ == decimal(n as nat) + ordinal_suffix(n as nat),
{
    let mut text = String::new();
    if n >= 100 {
        push_digit(&mut text, n / 100);
        push_digit(&mut text, (n / 10) % 10);
        push_digit(&mut text, n % 10);
        assert(decimal(n as nat) == seq![digit_char((n / 100) as int)] + seq![
            digit_char(((n / 10) % 10) as int),
        ] + seq![digit_char((n % 10) as int)]) by {
            assert(decimal((n / 10) as nat) == decimal(((n / 10) / 10) as nat) + seq![
                digit_char(((n / 10) % 10) as int),
            ]);
        }
        assert(text@ =~= decimal(n as nat));
    } else if n >= 10 {
        push_digit(&mut text, n / 10);
        push_digit(&mut text, n % 10);
        assert(decimal((n / 10) as nat) == seq![digit_char((n / 10) as int)]);
        assert(text@ =~= decimal(n as nat));
    } else {
        push_digit(&mut text, n);
        assert(text@ =~= decimal(n as nat));
    }
    let suffix = if n % 10 == 1 && n % 100 != 11 {
        "st"
    } else if n % 10 == 2 && n % 100 != 12 {
        "nd"
    } else if n % 10 == 3 && n % 100 != 13 {
        "rd"
    } else {
        "th"
    };
    proof {
        reveal_strlit("st");
        reveal_strlit("nd");
        reveal_strlit("rd");
        reveal_strlit("th");
    }
    assert(suffix@ == ordinal_suffix(n as nat));
    text.append(suffix);
    text
}

} // verus!
