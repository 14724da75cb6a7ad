//! Address steps: the vocabulary in which a place inside a document is named.

use vstd::prelude::*;
use vstd::std_specs::cmp::PartialEqSpecImpl;
use vstd::string::StringExecFns;

verus! {

/// One step from a value of a document to one of its children.
///
/// A sequence of steps, read from the root, is a path; the empty path is the root itself.
/// `Root` is no step at all: it addresses the single node that stands for a document
/// which is not a container. Any key or index may be stored, whether or not some
/// document has a value there.
#[derive(Debug, Eq, Hash)]
pub enum Selector {
    Root,
    ObjectKey(String),
    ArrayIndex(usize),
}

/// A step as a mathematical value.
pub enum SelectorView {
    Root,
    ObjectKey(Seq<char>),
    ArrayIndex(nat),
}

impl View for Selector {
    type V = SelectorView;

    open spec fn view(&self) -> SelectorView {
        match self {
            Selector::Root => SelectorView::Root,
            Selector::ObjectKey(key) => SelectorView::ObjectKey(key@),
            Selector::ArrayIndex(index) => SelectorView::ArrayIndex(*index as nat),
        }
    }
}

/// The character that stands for `d` in base ten, for `d` below ten.
pub open spec fn digit(d: nat) -> char
    recommends
        d < 10,
{
    if d == 0 {
        '0'
    } else if d == 1 {
        '1'
    } else if d == 2 {
        '2'
    } else if d == 3 {
        '3'
    } else if d == 4 {
        '4'
    } else if d == 5 {
        '5'
    } else if d == 6 {
        '6'
    } else if d == 7 {
        '7'
    } else if d == 8 {
        '8'
    } else {
        '9'
    }
}

/// `n` written in base ten, without sign and without leading zeros.
pub open spec fn decimal(n: nat) -> Seq<char>
    decreases n,
{
    if n < 10 {
        seq![digit(n)]
    } else {
        decimal(n / 10).push(digit(n % 10))
    }
}

impl SelectorView {
    /// The text by which a step is shown: nothing for `Root`, the key itself for a key,
    /// the index in base ten for an index.
    pub open spec fn text(self) -> Seq<char> {
        match self {
            SelectorView::Root => Seq::empty(),
            SelectorView::ObjectKey(key) => key,
            SelectorView::ArrayIndex(index) => decimal(index),
        }
    }
}

fn digit_str(d: usize) -> (text: &'static str)
    requires
        d < 10,
    ensures
        text@ == seq![digit(d as nat)],
{
    proof {
        reveal_strlit("0");
        reveal_strlit("1");
        reveal_strlit("2");
        reveal_strlit("3");
        reveal_strlit("4");
        reveal_strlit("5");
        reveal_strlit("6");
        reveal_strlit("7");
        reveal_strlit("8");
        reveal_strlit("9");
    }
    if d == 0 {
        "0"
    } else if d == 1 {
        "1"
    } else if d == 2 {
        "2"
    } else if d == 3 {
        "3"
    } else if d == 4 {
        "4"
    } else if d == 5 {
        "5"
    } else if d == 6 {
        "6"
    } else if d == 7 {
        "7"
    } else if d == 8 {
        "8"
    } else {
        "9"
    }
}

/// Writes `n` in base ten.
pub fn decimal_string(n: usize) -> (text: String)
    ensures
        text@ == decimal(n as nat),
    decreases n,
{
    if n < 10 {
        digit_str(n).to_owned()
    } else {
        let mut text = decimal_string(n / 10);
        text.append(digit_str(n % 10));
        text
    }
}

impl Selector {
    /// The text by which this step is shown.
    pub fn to_string(&self) -> (text: String)
        ensures
            text@ == self@.text(),
    {
        match self {
            Selector::Root => String::new(),
            Selector::ObjectKey(key) => key.clone(),
            Selector::ArrayIndex(index) => decimal_string(*index),
        }
    }
}

impl Clone for Selector {
    /// A copy is the same step.
    fn clone(&self) -> (copy: Selector)
        ensures
            copy == *self,
    {
        match self {
            Selector::Root => Selector::Root,
            Selector::ObjectKey(key) => Selector::ObjectKey(key.clone()),
            Selector::ArrayIndex(index) => Selector::ArrayIndex(*index),
        }
    }
}

impl PartialEq for Selector {
    /// Two steps are equal when they are the same kind of step with the same key or index.
    fn eq(&self, other: &Selector) -> (equal: bool) {
        match (self, other) {
            (Selector::Root, Selector::Root) => true,
            (Selector::ObjectKey(a), Selector::ObjectKey(b)) => *a == *b,
            (Selector::ArrayIndex(a), Selector::ArrayIndex(b)) => *a == *b,
            _ => false,
        }
    }
}

impl PartialEqSpecImpl for Selector {
    open spec fn obeys_eq_spec() -> bool {
        true
    }

    open spec fn eq_spec(&self, other: &Selector) -> bool {
        self@ == other@
    }
}

} // verus!
