//! The G-code command model.
//!
//! A command is a mnemonic, a major (and minor) code number and a list
//! of single-letter arguments.  Argument values are fixed-point
//! integers in micro-units (see `math::ONE`); the front-end that parses
//! program text converts to and from this representation.
//!
//! Contracts speak of commands through `GCodeView`, the mathematical
//! image of a command, whose argument list is a `Seq`.

use vstd::prelude::*;

use crate::math::MAX_ARG;

verus! {

/// The command class: `G`, `M`, `O` / `N`, or `T` words.
#[derive(Clone, Copy, Debug, PartialEq, Eq, Structural)]
pub enum Mnemonic {
    General,
    Miscellaneous,
    ProgramNumber,
    ToolChange,
}

/// One command argument: an upper-case letter and a fixed-point value.
#[derive(Clone, Copy, Debug, PartialEq, Eq, Structural)]
pub struct Word {
    pub letter: char,
    pub value: i64,
}

/// A parsed G-code command.
#[derive(Clone, Debug, PartialEq)]
pub struct GCode {
    pub mnemonic: Mnemonic,
    /// The integer part of the code number (the `1` of `G1`).
    pub number: u32,
    /// The tenths digit of the code number (the `2` of `G38.2`),
    /// carried only so that commands pass through output unchanged.
    pub minor: u32,
    pub arguments: Vec<Word>,
}

/// The mathematical image of a command.
pub ghost struct GCodeView {
    pub mnemonic: Mnemonic,
    pub number: u32,
    pub minor: u32,
    pub arguments: Seq<Word>,
}

impl View for GCode {
    type V = GCodeView;

    open spec fn view(&self) -> GCodeView {
        GCodeView {
            mnemonic: self.mnemonic,
            number: self.number,
            minor: self.minor,
            arguments: self.arguments@,
        }
    }
}

impl DeepView for GCode {
    type V = GCodeView;

    open spec fn deep_view(&self) -> GCodeView {
        self.view()
    }
}

/// The value of the first argument with the given letter, if any.
pub open spec fn first_value(args: Seq<Word>, letter: char) -> Option<i64>
    decreases args.len(),
{
    if args.len() == 0 {
        None::<i64>
    } else if args[0].letter == letter {
        Some(args[0].value)
    } else {
        first_value(args.drop_first(), letter)
    }
}

/// A found first value is the value of some argument with that letter.
pub proof fn lemma_first_value_witness(args: Seq<Word>, letter: char)
    requires
        first_value(args, letter) is Some,
    ensures
        exists|i: int|
            0 <= i < args.len() && (#[trigger] args[i]).letter == letter && Some(args[i].value)
                == first_value(args, letter),
    decreases args.len(),
{
    if args.len() > 0 {
        if args[0].letter == letter {
            assert(args[0].letter == letter && Some(args[0].value) == first_value(args, letter));
        } else {
            lemma_first_value_witness(args.drop_first(), letter);
            let j = choose|j: int|
                0 <= j < args.drop_first().len() && (#[trigger] args.drop_first()[j]).letter
                    == letter && Some(args.drop_first()[j].value) == first_value(
                    args.drop_first(),
                    letter,
                );
            assert(args[j + 1] == args.drop_first()[j]);
            assert(args[j + 1].letter == letter && Some(args[j + 1].value) == first_value(
                args,
                letter,
            ));
        }
    }
}

/// A letter that no argument carries has no first value.
pub proof fn lemma_first_value_absent(args: Seq<Word>, letter: char)
    requires
        forall|i: int| 0 <= i < args.len() ==> (#[trigger] args[i]).letter != letter,
    ensures
        first_value(args, letter) is None,
    decreases args.len(),
{
    if args.len() > 0 {
        assert forall|i: int| 0 <= i < args.drop_first().len() implies (#[trigger] args.drop_first()[
            i
        ]).letter != letter by {
            assert(args.drop_first()[i] == args[i + 1]);
        }
        lemma_first_value_absent(args.drop_first(), letter);
    }
}

/// A first match is found in the prefix or in the rest.
pub proof fn lemma_first_value_split(args: Seq<Word>, letter: char, i: int)
    requires
        0 <= i <= args.len(),
        forall|j: int| 0 <= j < i ==> args[j].letter != letter,
    ensures
        first_value(args, letter) == first_value(args.skip(i), letter),
    decreases i,
{
    if i > 0 {
        assert(args.skip(i - 1).drop_first() =~= args.skip(i));
        lemma_first_value_split(args, letter, i - 1);
        assert(args.skip(i - 1)[0] == args[i - 1]);
    } else {
        assert(args.skip(0) =~= args);
    }
}

impl GCodeView {
    /// Every argument value is within the admitted range.
    pub open spec fn wf(self) -> bool {
        forall|i: int|
            0 <= i < self.arguments.len() ==> -MAX_ARG <= (#[trigger] self.arguments[i]).value
                <= MAX_ARG
    }

    /// The value of the first argument spelled with `letter`, if any.
    pub open spec fn value_for(self, letter: char) -> Option<i64> {
        first_value(self.arguments, letter)
    }

    /// True when the command is a `G` word with the given major number.
    pub open spec fn is_g(self, number: u32) -> bool {
        self.mnemonic is General && self.number == number
    }
}

impl GCode {
    /// An owned copy of the command, with an equal view.
    pub fn duplicate(&self) -> (r: GCode)
        ensures
            r@ == self@,
    {
        let n = self.arguments.len();
        let mut args: Vec<Word> = Vec::new();
        let mut i: usize = 0;
        proof {
            assert(args@ =~= self.arguments@.take(0));
        }
        while i < n
            invariant
                n == self.arguments@.len(),
                0 <= i <= n,
                args@ == self.arguments@.take(i as int),
            decreases n - i,
        {
            args.push(self.arguments[i]);
            proof {
                assert(args@ =~= self.arguments@.take(i as int + 1));
            }
            i += 1;
        }
        proof {
            assert(args@ =~= self.arguments@);
        }
        GCode { mnemonic: self.mnemonic, number: self.number, minor: self.minor, arguments: args }
    }

    pub fn major_number(&self) -> (r: u32)
        ensures
            r == self@.number,
    {
        self.number
    }

    /// The value of the first argument spelled with `letter`, if any.
    pub fn value_for(&self, letter: char) -> (r: Option<i64>)
        ensures
            r == self@.value_for(letter),
    {
        let n = self.arguments.len();
        let mut i: usize = 0;
        while i < n
            invariant
                n == self.arguments@.len(),
                0 <= i <= n,
                forall|j: int| 0 <= j < i ==> self.arguments@[j].letter != letter,
            decreases n - i,
        {
            if self.arguments[i].letter == letter {
                proof {
                    lemma_first_value_split(self.arguments@, letter, i as int);
                    assert(self.arguments@.skip(i as int)[0] == self.arguments@[i as int]);
                }
                return Some(self.arguments[i].value);
            }
            i += 1;
        }
        proof {
            lemma_first_value_split(self.arguments@, letter, n as int);
            assert(self.arguments@.skip(n as int).len() == 0);
        }
        None
    }
}

} // verus!
