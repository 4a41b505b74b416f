//! Filtering the list by completion status.

use vstd::prelude::*;
use crate::items::{views, Item, ItemView};

verus! {

/// Which items a reader wants to see.
#[derive(PartialEq, Eq, Clone, Copy, Debug, Structural)]
pub enum Filter {
    All,
    Active,
    Completed,
}

impl Default for Filter {
    fn default() -> (filter: Filter)
        ensures
            filter == Filter::All,
    {
        Filter::All
    }
}

impl Filter {
    /// Whether the filter lets the item through.
    pub open spec fn accepts(self, item: ItemView) -> bool {
        match self {
            Filter::All => true,
            Filter::Active => !item.done,
            Filter::Completed => item.done,
        }
    }

    /// Whether the filter lets the item through.
    pub fn admits(&self, item: &Item) -> (b: bool)
        ensures
            b == self.accepts(item@),
    {
        match self {
            Filter::All => true,
            Filter::Active => !item.done,
            Filter::Completed => item.done,
        }
    }

    /// The filter's name, as shown to the user.
    pub fn label(&self) -> (name: String)
        ensures
            name@ == match self {
                Filter::All => "All"@,
                Filter::Active => "Active"@,
                Filter::Completed => "Completed"@,
            },
    {
        match self {
            Filter::All => String::from_str("All"),
            Filter::Active => String::from_str("Active"),
            Filter::Completed => String::from_str("Completed"),
        }
    }
}

/// The items that the filter lets through, in their order.
pub open spec fn filtered(items: Seq<ItemView>, filter: Filter) -> Seq<ItemView> {
    items.filter(|item: ItemView| filter.accepts(item))
}

/// How many items are not done.
pub open spec fn count_active(items: Seq<ItemView>) -> nat {
    filtered(items, Filter::Active).len()
}

/// Filtering a sequence that grew by one element.
pub proof fn lemma_filter_push(items: Seq<ItemView>, item: ItemView, filter: Filter)
    ensures
        filtered(items.push(item), filter) == if filter.accepts(item) {
            filtered(items, filter).push(item)
        } else {
            filtered(items, filter)
        },
{
    reveal(Seq::filter);
    assert(items.push(item).drop_last() =~= items);
}

/// The items of `items` that the filter lets through, in their order.
pub fn filter_items(items: &Vec<Item>, filter: Filter) -> (out: Vec<Item>)
    ensures
        views(out@) == filtered(views(items@), filter),
{
    let mut out: Vec<Item> = Vec::new();
    let mut i: usize = 0;
    proof {
        reveal(Seq::filter);
        assert(views(items@).take(0) =~= Seq::<ItemView>::empty());
        assert(views(out@) =~= filtered(views(items@).take(0), filter));
    }
    while i < items.len()
        invariant
            0 <= i <= items.len(),
            views(out@) == filtered(views(items@).take(i as int), filter),
        decreases items.len() - i,
    {
        let ghost before = views(out@);
        proof {
            lemma_filter_push(views(items@).take(i as int), items@[i as int]@, filter);
            assert(views(items@).take(i + 1) =~= views(items@).take(i as int).push(
                items@[i as int]@,
            ));
        }
        if filter.admits(&items[i]) {
            out.push(items[i].clone());
            proof {
                assert(views(out@) =~= before.push(items@[i as int]@));
            }
        }
        i += 1;
    }
    proof {
        assert(views(items@).take(items@.len() as int) =~= views(items@));
    }
    out
}

/// The digit `0` to `9` as a character.
pub open spec fn digit(d: int) -> char {
    if d == 0 {
        '0'
    } else if d == 1 {
        '1'
    } else if d == 2 {
        '2'
    } else if d == 3 {
        '3'
    } else if d == 4 {
        '4'
    } else if d == 5 {
        '5'
    } else if d == 6 {
        '6'
    } else if d == 7 {
        '7'
    } else if d == 8 {
        '8'
    } else {
        '9'
    }
}

/// The decimal numeral of `n`, without leading zeros.
pub open spec fn decimal(n: nat) -> Seq<char>
    decreases n,
{
    if n < 10 {
        seq![digit(n as int)]
    } else {
        decimal(n / 10).push(digit((n % 10) as int))
    }
}

fn digit_str(d: usize) -> (s: &'static str)
    requires
        d < 10,
    ensures
        s@ == seq![digit(d as int)],
{
    proof {
        reveal_strlit("0");
        reveal_strlit("1");
        reveal_strlit("2");
        reveal_strlit("3");
        reveal_strlit("4");
        reveal_strlit("5");
        reveal_strlit("6");
        reveal_strlit("7");
        reveal_strlit("8");
        reveal_strlit("9");
    }
    let s = if d == 0 {
        "0"
    } else if d == 1 {
        "1"
    } else if d == 2 {
        "2"
    } else if d == 3 {
        "3"
    } else if d == 4 {
        "4"
    } else if d == 5 {
        "5"
    } else if d == 6 {
        "6"
    } else if d == 7 {
        "7"
    } else if d == 8 {
        "8"
    } else {
        "9"
    };
    assert(s@ =~= seq![digit(d as int)]);
    s
}

/// The decimal numeral of `n`.
pub fn decimal_string(n: usize) -> (s: String)
    ensures
        s@ == decimal(n as nat),
    decreases n,
{
    if n < 10 {
        String::from_str(digit_str(n))
    } else {
        let mut s = decimal_string(n / 10);
        s.append(digit_str(n % 10));
        assert(s@ =~= decimal((n / 10) as nat).push(digit((n % 10) as int)));
        s
    }
}

/// The footer text for `left` items that are not done.
pub open spec fn left_label_of(left: nat) -> Seq<char> {
    if left == 1 {
        "1 item left"@
    } else {
        decimal(left) + " items left"@
    }
}

/// The footer text for `left` items that are not done.
pub fn left_label(left: usize) -> (label: String)
    ensures
        label@ == left_label_of(left as nat),
{
    if left == 1 {
        String::from_str("1 item left")
    } else {
        let mut label = decimal_string(left);
        label.append(" items left");
        label
    }
}

} // verus!
