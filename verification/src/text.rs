//! Plain text: decimal numbers and separated lists.
use vstd::prelude::*;

verus! {

/// One line of generated text.
pub type Line = Seq<char>;

/// The character for the decimal digit `d`.
pub open spec fn digit(d: nat) -> char
    recommends
        d < 10,
{
    if d == 0 {
        '0'
    } else if d == 1 {
        '1'
    } else if d == 2 {
        '2'
    } else if d == 3 {
        '3'
    } else if d == 4 {
        '4'
    } else if d == 5 {
        '5'
    } else if d == 6 {
        '6'
    } else if d == 7 {
        '7'
    } else if d == 8 {
        '8'
    } else {
        '9'
    }
}

/// The decimal notation of `n`, without leading zeros.
pub open spec fn decimal(n: nat) -> Seq<char>
    decreases n,
{
    if n < 10 {
        seq![digit(n)]
    } else {
        decimal(n / 10).push(digit(n % 10))
    }
}

fn digit_text(d: usize) -> (text: &'static str)
    requires
        d < 10,
    ensures
        text@ == seq![digit(d as nat)],
{
    proof {
        reveal_strlit("0");
        reveal_strlit("1");
        reveal_strlit("2");
        reveal_strlit("3");
        reveal_strlit("4");
        reveal_strlit("5");
        reveal_strlit("6");
        reveal_strlit("7");
        reveal_strlit("8");
        reveal_strlit("9");
    }
    if d == 0 {
        "0"
    } else if d == 1 {
        "1"
    } else if d == 2 {
        "2"
    } else if d == 3 {
        "3"
    } else if d == 4 {
        "4"
    } else if d == 5 {
        "5"
    } else if d == 6 {
        "6"
    } else if d == 7 {
        "7"
    } else if d == 8 {
        "8"
    } else {
        "9"
    }
}

/// Writes `n` in decimal notation.
pub fn decimal_text(n: usize) -> (text: String)
    ensures
        text@ == decimal(n as nat),
    decreases n,
{
    if n < 10 {
        digit_text(n).to_owned()
    } else {
        let text = decimal_text(n / 10).concat(digit_text(n % 10));
        assert(text@ =~= decimal((n / 10) as nat).push(digit((n % 10) as nat)));
        text
    }
}

/// Two numbers with the same decimal notation are the same.
pub proof fn law_decimal_tells_numbers_apart(m: nat, n: nat)
    requires
        decimal(m) == decimal(n),
    ensures
        m == n,
    decreases m + n,
{
    if m < 10 && n < 10 {
        assert(decimal(m)[0] == digit(m) && decimal(n)[0] == digit(n));
        lemma_digits_differ(m, n);
    } else if m < 10 {
        lemma_decimal_nonempty(n / 10);
        assert(decimal(m).len() == 1 && decimal(n).len() > 1);
    } else if n < 10 {
        lemma_decimal_nonempty(m / 10);
        assert(decimal(m).len() > 1 && decimal(n).len() == 1);
    } else {
        assert(decimal(m).last() == digit(m % 10) && decimal(n).last() == digit(n % 10));
        assert(decimal(m / 10) =~= decimal(m).drop_last());
        assert(decimal(n / 10) =~= decimal(n).drop_last());
        law_decimal_tells_numbers_apart(m / 10, n / 10);
        lemma_digits_differ(m % 10, n % 10);
    }
}

/// The number that a text of decimal digits stands for.
pub open spec fn number(text: Seq<char>) -> int
    decreases text.len(),
{
    if text.len() == 0 {
        0
    } else {
        number(text.drop_last()) * 10 + (text.last() as int - '0' as int)
    }
}

/// The decimal notation of a number is made of digits, stands for the number, and
/// has no leading zeros.
pub proof fn law_decimal_reads_back(n: nat)
    ensures
        decimal(n).len() > 0,
        forall|i: int| 0 <= i < decimal(n).len() ==> '0' <= #[trigger] decimal(n)[i] <= '9',
        number(decimal(n)) == n,
        n > 0 ==> decimal(n)[0] != '0',
    decreases n,
{
    reveal_with_fuel(number, 2);
    let text = decimal(n);
    if n < 10 {
        assert(text.drop_last() =~= seq![]);
    } else {
        law_decimal_reads_back(n / 10);
        assert(text.drop_last() =~= decimal(n / 10));
        assert forall|i: int| 0 <= i < text.len() implies '0' <= #[trigger] text[i] <= '9' by {
            if i < text.len() - 1 {
                assert(text[i] == decimal(n / 10)[i]);
            }
        }
        assert(text[0] == decimal(n / 10)[0]);
    }
}

proof fn lemma_digits_differ(d: nat, e: nat)
    requires
        d < 10,
        e < 10,
        digit(d) == digit(e),
    ensures
        d == e,
{
}

proof fn lemma_decimal_nonempty(n: nat)
    ensures
        decimal(n).len() > 0,
{
}

/// What the strings of a list hold.
pub open spec fn views(items: Seq<String>) -> Seq<Line> {
    Seq::new(items.len(), |i: int| items[i]@)
}

/// What the strings of a list hold is what each of them holds.
pub proof fn law_views(items: Seq<String>)
    ensures
        views(items).len() == items.len(),
        forall|i: int| 0 <= i < items.len() ==> #[trigger] views(items)[i] == items[i]@,
{
}

/// The items, with `separator` between neighbours.
pub open spec fn join(separator: Seq<char>, items: Seq<Line>) -> Seq<char>
    decreases items.len(),
{
    if items.len() == 0 {
        seq![]
    } else if items.len() == 1 {
        items[0]
    } else {
        join(separator, items.drop_last()) + separator + items.last()
    }
}

/// Joining two lists is joining each, with the separator between them.
pub proof fn law_join(separator: Seq<char>, first: Seq<Line>, second: Seq<Line>)
    ensures
        join(separator, Seq::empty()) == Seq::<char>::empty(),
        first.len() == 1 ==> join(separator, first) == first[0],
        first.len() == 0 ==> join(separator, first + second) == join(separator, second),
        second.len() == 0 ==> join(separator, first + second) == join(separator, first),
        first.len() > 0 && second.len() > 0 ==> join(separator, first + second) == join(
            separator,
            first,
        ) + separator + join(separator, second),
    decreases second.len(),
{
    let all = first + second;
    if first.len() == 0 {
        assert(all =~= second);
    } else if second.len() == 0 {
        assert(all =~= first);
    } else {
        law_join(separator, first, second.drop_last());
        assert(all.drop_last() =~= first + second.drop_last());
        assert(all.last() == second.last());
        if second.len() == 1 {
            assert(all.drop_last() =~= first);
        } else {
            assert(join(separator, first) + separator + (join(separator, second.drop_last())
                + separator + second.last()) =~= join(separator, first) + separator + join(
                separator,
                second.drop_last(),
            ) + separator + second.last());
        }
    }
}

/// Joins the items, with `separator` between neighbours.
pub fn join_text(separator: &str, items: &Vec<String>) -> (text: String)
    ensures
        text@ == join(separator@, views(items@)),
{
    if items.len() == 0 {
        return String::new();
    }
    let mut text = items[0].clone();
    let mut i: usize = 1;
    proof {
        assert(views(items@).take(1) =~= seq![items@[0]@]);
    }
    while i < items.len()
        invariant
            1 <= i <= items.len(),
            text@ == join(separator@, views(items@).take(i as int)),
        decreases items.len() - i,
    {
        proof {
            let next = views(items@).take(i + 1);
            assert(next.drop_last() =~= views(items@).take(i as int));
            assert(next.last() == items@[i as int]@);
        }
        text = text.concat(separator).concat(items[i].as_str());
        i += 1;
    }
    proof {
        assert(views(items@).take(i as int) =~= views(items@));
    }
    text
}

/// Appending two blocks one after the other is appending both at once.
pub proof fn lemma_append(head: Seq<Line>, first: Seq<Line>, second: Seq<Line>)
    ensures
        head + first + second == head + (first + second),
{
    assert(head + first + second =~= head + (first + second));
}

} // verus!
