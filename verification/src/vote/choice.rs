//! Choices of a proposal.

use std::ops::Range;
use vstd::prelude::*;

verus! {

/// Largest number of choices a proposal can offer.
pub const NUM_CHOICES_MAX: u8 = 16;

/// A choice: the index of an option of a proposal.
#[derive(Clone, Copy, Debug, PartialEq, Eq, Hash, Structural)]
pub struct Choice(u8);

/// The options of a proposal: the choices `0..count`.
#[derive(Clone, Copy, Debug, PartialEq, Eq, Hash, Structural)]
pub struct Options {
    count: u8,
}

/// The number of choices asked for is zero or above `NUM_CHOICES_MAX`.
#[derive(Clone, Copy, Debug, PartialEq, Eq, Structural)]
pub struct InvalidOptionsLength {
    pub num_choices: u8,
}

impl View for Choice {
    type V = u8;

    closed spec fn view(&self) -> u8 {
        self.0
    }
}

impl View for Options {
    type V = nat;

    closed spec fn view(&self) -> nat {
        self.count as nat
    }
}

impl Choice {
    /// The choice of the option with the given index.
    pub closed spec fn new_spec(choice: u8) -> Choice {
        Choice(choice)
    }

    /// The choice of the option with the given index.
    #[verifier::when_used_as_spec(new_spec)]
    pub fn new(choice: u8) -> (r: Choice)
        ensures
            r@ == choice,
            r == Choice::new_spec(choice),
    {
        Choice(choice)
    }

    /// A choice is the choice made of its index.
    pub proof fn lemma_is_new_spec(self)
        ensures
            self == Choice::new_spec(self@),
    {
    }

    /// A choice is the index it was made of.
    pub proof fn lemma_new_spec(choice: u8)
        ensures
            Choice::new_spec(choice)@ == choice,
    {
    }

    /// The index of the chosen option.
    pub fn as_byte(self) -> (r: u8)
        ensures
            r == self@,
    {
        self.0
    }
}

impl Options {
    #[verifier::type_invariant]
    spec fn inv(self) -> bool {
        0 < self.count <= NUM_CHOICES_MAX
    }

    /// The options `0..count`.
    pub closed spec fn of_count(count: u8) -> Options {
        Options { count }
    }

    /// The options of a number of choices have that number.
    pub proof fn lemma_of_count(count: u8)
        ensures
            Options::of_count(count)@ == count,
    {
    }

    /// Options are the options of their number of choices, which is from
    /// one to `NUM_CHOICES_MAX`.
    pub proof fn lemma_of_view(self)
        requires
            self.is_valid(),
        ensures
            0 < self@ <= NUM_CHOICES_MAX,
            Options::of_count(self@ as u8) == self,
    {
    }

    /// Whether the number of choices is from one to `NUM_CHOICES_MAX`.
    pub closed spec fn is_valid(self) -> bool {
        self.inv()
    }

    /// The options `0..num_choices`; an error unless
    /// `0 < num_choices <= NUM_CHOICES_MAX`.
    pub fn new_length(num_choices: u8) -> (r: Result<Options, InvalidOptionsLength>)
        ensures
            match r {
                Ok(o) => 0 < num_choices <= NUM_CHOICES_MAX && o@ == num_choices && o
                    == Options::of_count(num_choices) && o.is_valid(),
                Err(e) => !(0 < num_choices <= NUM_CHOICES_MAX) && e.num_choices == num_choices,
            },
    {
        if num_choices > 0 && num_choices <= NUM_CHOICES_MAX {
            Ok(Options { count: num_choices })
        } else {
            Err(InvalidOptionsLength { num_choices })
        }
    }

    /// The number of options.
    pub fn as_byte(&self) -> (r: u8)
        ensures
            r as nat == self@,
            0 < r <= NUM_CHOICES_MAX,
            self.is_valid(),
    {
        proof {
            use_type_invariant(self);
        }
        self.count
    }

    /// Whether the choice is one of the options.
    pub fn validate(&self, choice: Choice) -> (r: bool)
        ensures
            r == ((choice@ as nat) < self@),
    {
        proof {
            use_type_invariant(self);
        }
        choice.0 < self.count
    }

    /// The range of the choices.
    pub fn choice_range(&self) -> (r: Range<u8>)
        ensures
            r.start == 0,
            r.end as nat == self@,
    {
        Range { start: 0, end: self.count }
    }
}

/// There are options of every number of choices from one to
/// `NUM_CHOICES_MAX`.
pub proof fn lemma_options_exist(count: u8)
    requires
        0 < count <= NUM_CHOICES_MAX,
    ensures
        exists|o: Options| o@ == count as nat,
{
    let o = Options { count };
    assert(o@ == count as nat);
}

/// Options with the same number of choices are the same.
pub proof fn lemma_options_unique(a: Options, b: Options)
    requires
        a@ == b@,
    ensures
        a == b,
{
}

} // verus!
