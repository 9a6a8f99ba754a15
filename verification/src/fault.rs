//! What went wrong, and what that goes back to.

use vstd::prelude::*;
use crate::text::{NumberError, views};

verus! {

/// A failure: what is reported, and the causes underneath, nearest first.
#[derive(Debug, Clone, PartialEq, Eq)]
pub struct Fault {
    pub message: String,
    pub causes: Vec<String>,
}

/// The content of a [`Fault`].
#[verifier::ext_equal]
pub struct FaultView {
    pub message: Seq<char>,
    pub causes: Seq<Seq<char>>,
}

impl View for Fault {
    type V = FaultView;

    open spec fn view(&self) -> FaultView {
        FaultView { message: self.message@, causes: views(self.causes@) }
    }
}

/// A failure without a cause underneath.
pub open spec fn plain(message: Seq<char>) -> FaultView {
    FaultView { message, causes: Seq::empty() }
}

/// A result whose failure is taken by its content.
pub open spec fn result_view<T>(r: Result<T, Fault>) -> Result<T, FaultView> {
    match r {
        Ok(value) => Ok(value),
        Err(fault) => Err(fault@),
    }
}

/// What is reported of a text that is no number.
pub open spec fn number_fault(e: NumberError) -> FaultView {
    match e {
        NumberError::Empty => plain("cannot parse integer from empty string"@),
        NumberError::InvalidDigit => plain("invalid digit found in string"@),
        NumberError::TooLarge => plain("number too large to fit in target type"@),
    }
}

impl FaultView {
    /// The same failure, reported as `context`.
    pub open spec fn within(self, context: Seq<char>) -> FaultView {
        FaultView { message: context, causes: seq![self.message] + self.causes }
    }

    /// Everything that the failure tells, the outermost first.
    pub open spec fn told(self) -> Seq<Seq<char>> {
        seq![self.message] + self.causes
    }
}

/// A context comes on top of what a failure tells, and takes nothing from it.
pub proof fn a_context_comes_on_top(fault: FaultView, context: Seq<char>)
    ensures
        fault.within(context).told() == seq![context] + fault.told(),
        fault.within(context).told().len() == fault.told().len() + 1,
        fault.within(context).told().skip(1) == fault.told(),
{
    assert(fault.within(context).told() =~= seq![context] + fault.told());
    assert(fault.within(context).told().skip(1) =~= fault.told());
}

impl Fault {
    /// A failure without a cause underneath.
    pub fn new(message: String) -> (r: Fault)
        ensures
            r@ == plain(message@),
    {
        let causes: Vec<String> = Vec::new();
        assert(views(causes@) =~= Seq::<Seq<char>>::empty());
        Fault { message, causes }
    }

    /// What is reported of a text that is no number.
    pub fn of_number(e: NumberError) -> (r: Fault)
        ensures
            r@ == number_fault(e),
    {
        match e {
            NumberError::Empty => Fault::new("cannot parse integer from empty string".to_owned()),
            NumberError::InvalidDigit => Fault::new("invalid digit found in string".to_owned()),
            NumberError::TooLarge => Fault::new(
                "number too large to fit in target type".to_owned(),
            ),
        }
    }

    /// The same failure, reported as `context`; what it was reported as before
    /// becomes its nearest cause.
    pub fn within(self, context: &str) -> (r: Fault)
        ensures
            r@ == self@.within(context@),
    {
        let ghost before = self@;
        let Fault { message, mut causes } = self;
        causes.insert(0, message);
        assert(views(causes@) =~= seq![before.message] + before.causes);
        Fault { message: context.to_owned(), causes }
    }
}

/// A failure without a cause tells its message and nothing else. The faults of a
/// number tell three different things.
pub proof fn a_plain_failure_tells_its_message(
    message: Seq<char>,
    a: NumberError,
    b: NumberError,
)
    ensures
        plain(message).told() == seq![message],
        number_fault(a).told().len() == 1,
        number_fault(a) == number_fault(b) <==> a == b,
{
    assert(plain(message).told() =~= seq![message]);
    reveal_strlit("cannot parse integer from empty string");
    reveal_strlit("invalid digit found in string");
    reveal_strlit("number too large to fit in target type");
    assert("cannot parse integer from empty string"@[0] == 'c');
    assert("invalid digit found in string"@[0] == 'i');
    assert("number too large to fit in target type"@[0] == 'n');
}

} // verus!
